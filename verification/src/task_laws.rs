//! What holds of every task document, whatever the account and the install path are.
use vstd::prelude::*;

use crate::cli::{command, own_arguments_parse_back, Cmd};
use crate::command_line::{joined_arguments_split_back, split_args};
use crate::config::Mode;
use crate::elevate::{all_quoted, plain};
use crate::tasks::{
    command_in, escaped, escaped_char, health_of, registered, registrations, task_xml,
    unescape_inverts_escape, xml_after_command, xml_before_command, xml_logon_trigger, xml_opening,
    xml_settings, TaskProbe, TaskView,
};
use crate::text::{
    contains, join, lemma_field, lemma_first_occurrence, lemma_itself, lemma_piece, occurs_at,
};

verus! {

/// Every `<` in `s` opens a tag whose name does not begin with `C`, when `c` is set, and does not
/// begin like `LogonTrigger`, when `l` is set.
spec fn calm(s: Seq<char>, c: bool, l: bool) -> bool {
    forall|i: int| 0 <= i < s.len() && #[trigger] s[i] == '<' ==> tag_calm(s, i, c, l)
}

spec fn tag_calm(s: Seq<char>, i: int, c: bool, l: bool) -> bool {
    &&& i + 1 < s.len()
    &&& c ==> s[i + 1] != 'C'
    &&& l && s[i + 1] == 'L' ==> i + 7 < s.len() && s[i + 7] != 'r'
}

spec fn calm_to(s: Seq<char>, n: nat, c: bool, l: bool) -> bool
    decreases n,
{
    n == 0 || calm_to(s, (n - 1) as nat, c, l) && (s[n - 1] == '<' ==> tag_calm(s, n - 1, c, l))
}

proof fn lemma_calm_to(s: Seq<char>, n: nat, c: bool, l: bool)
    requires
        calm_to(s, n, c, l),
    ensures
        forall|i: int| 0 <= i < n && #[trigger] s[i] == '<' ==> tag_calm(s, i, c, l),
    decreases n,
{
    if n > 0 {
        lemma_calm_to(s, (n - 1) as nat, c, l);
    }
}

proof fn lemma_calm_concat(a: Seq<char>, b: Seq<char>, c: bool, l: bool)
    requires
        calm(a, c, l),
        calm(b, c, l),
    ensures
        calm(a + b, c, l),
{
    let s = a + b;
    assert forall|i: int| 0 <= i < s.len() && #[trigger] s[i] == '<' implies tag_calm(s, i, c, l) by {
        if i < a.len() {
            assert(a[i] == '<');
        } else {
            assert(b[i - a.len()] == '<');
        }
    }
}

proof fn lemma_calm_declaration(c: bool, l: bool)
    ensures
        calm("<?xml version=\"1.0\" encoding=\"UTF-16\"?>\n"@, c, l),
{
    reveal_strlit("<?xml version=\"1.0\" encoding=\"UTF-16\"?>\n");
    reveal_with_fuel(calm_to, 90);
    let s = "<?xml version=\"1.0\" encoding=\"UTF-16\"?>\n"@;
    assert(calm_to(s, s.len(), c, l));
    lemma_calm_to(s, s.len(), c, l);
}

proof fn lemma_calm_root(c: bool, l: bool)
    ensures
        calm("<Task version=\"1.4\" xmlns=\"http://schemas.microsoft.com/windows/2004/02/mit/task\">\n"@, c, l),
{
    reveal_strlit("<Task version=\"1.4\" xmlns=\"http://schemas.microsoft.com/windows/2004/02/mit/task\">\n");
    reveal_with_fuel(calm_to, 90);
    let s = "<Task version=\"1.4\" xmlns=\"http://schemas.microsoft.com/windows/2004/02/mit/task\">\n"@;
    assert(calm_to(s, s.len(), c, l));
    lemma_calm_to(s, s.len(), c, l);
}

proof fn lemma_calm_registration(c: bool, l: bool)
    ensures
        calm("  <RegistrationInfo>\n    <Author>LinkSwitch</Author>\n    <URI>\\LinkSwitch\\"@, c, l),
{
    reveal_strlit("  <RegistrationInfo>\n    <Author>LinkSwitch</Author>\n    <URI>\\LinkSwitch\\");
    reveal_with_fuel(calm_to, 90);
    let s = "  <RegistrationInfo>\n    <Author>LinkSwitch</Author>\n    <URI>\\LinkSwitch\\"@;
    assert(calm_to(s, s.len(), c, l));
    lemma_calm_to(s, s.len(), c, l);
}

proof fn lemma_calm_description(c: bool, l: bool)
    ensures
        calm("</URI>\n    <Description>"@, c, l),
{
    reveal_strlit("</URI>\n    <Description>");
    reveal_with_fuel(calm_to, 90);
    let s = "</URI>\n    <Description>"@;
    assert(calm_to(s, s.len(), c, l));
    lemma_calm_to(s, s.len(), c, l);
}

proof fn lemma_calm_triggers(c: bool, l: bool)
    ensures
        calm("</Description>\n  </RegistrationInfo>\n  <Triggers>\n"@, c, l),
{
    reveal_strlit("</Description>\n  </RegistrationInfo>\n  <Triggers>\n");
    reveal_with_fuel(calm_to, 90);
    let s = "</Description>\n  </RegistrationInfo>\n  <Triggers>\n"@;
    assert(calm_to(s, s.len(), c, l));
    lemma_calm_to(s, s.len(), c, l);
}

proof fn lemma_calm_principal(c: bool, l: bool)
    ensures
        calm("  </Triggers>\n  <Principals>\n    <Principal id=\"Author\">\n      <UserId>"@, c, l),
{
    reveal_strlit("  </Triggers>\n  <Principals>\n    <Principal id=\"Author\">\n      <UserId>");
    reveal_with_fuel(calm_to, 90);
    let s = "  </Triggers>\n  <Principals>\n    <Principal id=\"Author\">\n      <UserId>"@;
    assert(calm_to(s, s.len(), c, l));
    lemma_calm_to(s, s.len(), c, l);
}

proof fn lemma_calm_logon_type(c: bool, l: bool)
    ensures
        calm("</UserId>\n      <LogonType>InteractiveToken</LogonType>\n"@, c, l),
{
    reveal_strlit("</UserId>\n      <LogonType>InteractiveToken</LogonType>\n");
    reveal_with_fuel(calm_to, 90);
    let s = "</UserId>\n      <LogonType>InteractiveToken</LogonType>\n"@;
    assert(calm_to(s, s.len(), c, l));
    lemma_calm_to(s, s.len(), c, l);
}

proof fn lemma_calm_run_level(c: bool, l: bool)
    ensures
        calm("      <RunLevel>HighestAvailable</RunLevel>\n    </Principal>\n  </Principals>\n"@, c, l),
{
    reveal_strlit("      <RunLevel>HighestAvailable</RunLevel>\n    </Principal>\n  </Principals>\n");
    reveal_with_fuel(calm_to, 90);
    let s = "      <RunLevel>HighestAvailable</RunLevel>\n    </Principal>\n  </Principals>\n"@;
    assert(calm_to(s, s.len(), c, l));
    lemma_calm_to(s, s.len(), c, l);
}

proof fn lemma_calm_batteries(c: bool, l: bool)
    ensures
        calm("  <Settings>\n    <DisallowStartIfOnBatteries>false</DisallowStartIfOnBatteries>\n"@, c, l),
{
    reveal_strlit("  <Settings>\n    <DisallowStartIfOnBatteries>false</DisallowStartIfOnBatteries>\n");
    reveal_with_fuel(calm_to, 90);
    let s = "  <Settings>\n    <DisallowStartIfOnBatteries>false</DisallowStartIfOnBatteries>\n"@;
    assert(calm_to(s, s.len(), c, l));
    lemma_calm_to(s, s.len(), c, l);
}

proof fn lemma_calm_stop(c: bool, l: bool)
    ensures
        calm("    <StopIfGoingOnBatteries>false</StopIfGoingOnBatteries>\n"@, c, l),
{
    reveal_strlit("    <StopIfGoingOnBatteries>false</StopIfGoingOnBatteries>\n");
    reveal_with_fuel(calm_to, 90);
    let s = "    <StopIfGoingOnBatteries>false</StopIfGoingOnBatteries>\n"@;
    assert(calm_to(s, s.len(), c, l));
    lemma_calm_to(s, s.len(), c, l);
}

proof fn lemma_calm_instances(c: bool, l: bool)
    ensures
        calm("    <MultipleInstancesPolicy>Queue</MultipleInstancesPolicy>\n"@, c, l),
{
    reveal_strlit("    <MultipleInstancesPolicy>Queue</MultipleInstancesPolicy>\n");
    reveal_with_fuel(calm_to, 90);
    let s = "    <MultipleInstancesPolicy>Queue</MultipleInstancesPolicy>\n"@;
    assert(calm_to(s, s.len(), c, l));
    lemma_calm_to(s, s.len(), c, l);
}

proof fn lemma_calm_on_demand(c: bool, l: bool)
    ensures
        calm("    <AllowStartOnDemand>true</AllowStartOnDemand>\n"@, c, l),
{
    reveal_strlit("    <AllowStartOnDemand>true</AllowStartOnDemand>\n");
    reveal_with_fuel(calm_to, 90);
    let s = "    <AllowStartOnDemand>true</AllowStartOnDemand>\n"@;
    assert(calm_to(s, s.len(), c, l));
    lemma_calm_to(s, s.len(), c, l);
}

proof fn lemma_calm_terminate(c: bool, l: bool)
    ensures
        calm("    <AllowHardTerminate>true</AllowHardTerminate>\n"@, c, l),
{
    reveal_strlit("    <AllowHardTerminate>true</AllowHardTerminate>\n");
    reveal_with_fuel(calm_to, 90);
    let s = "    <AllowHardTerminate>true</AllowHardTerminate>\n"@;
    assert(calm_to(s, s.len(), c, l));
    lemma_calm_to(s, s.len(), c, l);
}

proof fn lemma_calm_available(c: bool, l: bool)
    ensures
        calm("    <StartWhenAvailable>false</StartWhenAvailable>\n"@, c, l),
{
    reveal_strlit("    <StartWhenAvailable>false</StartWhenAvailable>\n");
    reveal_with_fuel(calm_to, 90);
    let s = "    <StartWhenAvailable>false</StartWhenAvailable>\n"@;
    assert(calm_to(s, s.len(), c, l));
    lemma_calm_to(s, s.len(), c, l);
}

proof fn lemma_calm_network(c: bool, l: bool)
    ensures
        calm("    <RunOnlyIfNetworkAvailable>false</RunOnlyIfNetworkAvailable>\n"@, c, l),
{
    reveal_strlit("    <RunOnlyIfNetworkAvailable>false</RunOnlyIfNetworkAvailable>\n");
    reveal_with_fuel(calm_to, 90);
    let s = "    <RunOnlyIfNetworkAvailable>false</RunOnlyIfNetworkAvailable>\n"@;
    assert(calm_to(s, s.len(), c, l));
    lemma_calm_to(s, s.len(), c, l);
}

proof fn lemma_calm_idle(c: bool, l: bool)
    ensures
        calm("    <RunOnlyIfIdle>false</RunOnlyIfIdle>\n    <Hidden>true</Hidden>\n"@, c, l),
{
    reveal_strlit("    <RunOnlyIfIdle>false</RunOnlyIfIdle>\n    <Hidden>true</Hidden>\n");
    reveal_with_fuel(calm_to, 90);
    let s = "    <RunOnlyIfIdle>false</RunOnlyIfIdle>\n    <Hidden>true</Hidden>\n"@;
    assert(calm_to(s, s.len(), c, l));
    lemma_calm_to(s, s.len(), c, l);
}

proof fn lemma_calm_enabled(c: bool, l: bool)
    ensures
        calm("    <Enabled>true</Enabled>\n    <WakeToRun>false</WakeToRun>\n"@, c, l),
{
    reveal_strlit("    <Enabled>true</Enabled>\n    <WakeToRun>false</WakeToRun>\n");
    reveal_with_fuel(calm_to, 90);
    let s = "    <Enabled>true</Enabled>\n    <WakeToRun>false</WakeToRun>\n"@;
    assert(calm_to(s, s.len(), c, l));
    lemma_calm_to(s, s.len(), c, l);
}

proof fn lemma_calm_limit(c: bool, l: bool)
    ensures
        calm("    <ExecutionTimeLimit>PT2M</ExecutionTimeLimit>\n    <Priority>5</Priority>\n"@, c, l),
{
    reveal_strlit("    <ExecutionTimeLimit>PT2M</ExecutionTimeLimit>\n    <Priority>5</Priority>\n");
    reveal_with_fuel(calm_to, 90);
    let s = "    <ExecutionTimeLimit>PT2M</ExecutionTimeLimit>\n    <Priority>5</Priority>\n"@;
    assert(calm_to(s, s.len(), c, l));
    lemma_calm_to(s, s.len(), c, l);
}

proof fn lemma_calm_idle_settings(c: bool, l: bool)
    ensures
        calm("    <IdleSettings>\n      <StopOnIdleEnd>false</StopOnIdleEnd>\n"@, c, l),
{
    reveal_strlit("    <IdleSettings>\n      <StopOnIdleEnd>false</StopOnIdleEnd>\n");
    reveal_with_fuel(calm_to, 90);
    let s = "    <IdleSettings>\n      <StopOnIdleEnd>false</StopOnIdleEnd>\n"@;
    assert(calm_to(s, s.len(), c, l));
    lemma_calm_to(s, s.len(), c, l);
}

proof fn lemma_calm_restart(c: bool, l: bool)
    ensures
        calm("      <RestartOnIdle>false</RestartOnIdle>\n    </IdleSettings>\n  </Settings>\n"@, c, l),
{
    reveal_strlit("      <RestartOnIdle>false</RestartOnIdle>\n    </IdleSettings>\n  </Settings>\n");
    reveal_with_fuel(calm_to, 90);
    let s = "      <RestartOnIdle>false</RestartOnIdle>\n    </IdleSettings>\n  </Settings>\n"@;
    assert(calm_to(s, s.len(), c, l));
    lemma_calm_to(s, s.len(), c, l);
}

proof fn lemma_calm_actions(c: bool, l: bool)
    ensures
        calm("  <Actions Context=\"Author\">\n    <Exec>\n      "@, c, l),
{
    reveal_strlit("  <Actions Context=\"Author\">\n    <Exec>\n      ");
    reveal_with_fuel(calm_to, 90);
    let s = "  <Actions Context=\"Author\">\n    <Exec>\n      "@;
    assert(calm_to(s, s.len(), c, l));
    lemma_calm_to(s, s.len(), c, l);
}

proof fn lemma_calm_opening(c: bool, l: bool)
    ensures
        calm(xml_opening(), c, l),
{
    lemma_calm_declaration(c, l);
    lemma_calm_root(c, l);
    lemma_calm_registration(c, l);
    let d0 = "<?xml version=\"1.0\" encoding=\"UTF-16\"?>\n"@;
    lemma_calm_concat(d0, "<Task version=\"1.4\" xmlns=\"http://schemas.microsoft.com/windows/2004/02/mit/task\">\n"@, c, l);
    let d1 = d0 + "<Task version=\"1.4\" xmlns=\"http://schemas.microsoft.com/windows/2004/02/mit/task\">\n"@;
    lemma_calm_concat(d1, "  <RegistrationInfo>\n    <Author>LinkSwitch</Author>\n    <URI>\\LinkSwitch\\"@, c, l);
    let d2 = d1 + "  <RegistrationInfo>\n    <Author>LinkSwitch</Author>\n    <URI>\\LinkSwitch\\"@;
}

proof fn lemma_calm_settings(c: bool, l: bool)
    ensures
        calm(xml_settings(), c, l),
{
    lemma_calm_logon_type(c, l);
    lemma_calm_run_level(c, l);
    lemma_calm_batteries(c, l);
    lemma_calm_stop(c, l);
    lemma_calm_instances(c, l);
    lemma_calm_on_demand(c, l);
    lemma_calm_terminate(c, l);
    lemma_calm_available(c, l);
    lemma_calm_network(c, l);
    lemma_calm_idle(c, l);
    lemma_calm_enabled(c, l);
    lemma_calm_limit(c, l);
    lemma_calm_idle_settings(c, l);
    lemma_calm_restart(c, l);
    lemma_calm_actions(c, l);
    let d0 = "</UserId>\n      <LogonType>InteractiveToken</LogonType>\n"@;
    lemma_calm_concat(d0, "      <RunLevel>HighestAvailable</RunLevel>\n    </Principal>\n  </Principals>\n"@, c, l);
    let d1 = d0 + "      <RunLevel>HighestAvailable</RunLevel>\n    </Principal>\n  </Principals>\n"@;
    lemma_calm_concat(d1, "  <Settings>\n    <DisallowStartIfOnBatteries>false</DisallowStartIfOnBatteries>\n"@, c, l);
    let d2 = d1 + "  <Settings>\n    <DisallowStartIfOnBatteries>false</DisallowStartIfOnBatteries>\n"@;
    lemma_calm_concat(d2, "    <StopIfGoingOnBatteries>false</StopIfGoingOnBatteries>\n"@, c, l);
    let d3 = d2 + "    <StopIfGoingOnBatteries>false</StopIfGoingOnBatteries>\n"@;
    lemma_calm_concat(d3, "    <MultipleInstancesPolicy>Queue</MultipleInstancesPolicy>\n"@, c, l);
    let d4 = d3 + "    <MultipleInstancesPolicy>Queue</MultipleInstancesPolicy>\n"@;
    lemma_calm_concat(d4, "    <AllowStartOnDemand>true</AllowStartOnDemand>\n"@, c, l);
    let d5 = d4 + "    <AllowStartOnDemand>true</AllowStartOnDemand>\n"@;
    lemma_calm_concat(d5, "    <AllowHardTerminate>true</AllowHardTerminate>\n"@, c, l);
    let d6 = d5 + "    <AllowHardTerminate>true</AllowHardTerminate>\n"@;
    lemma_calm_concat(d6, "    <StartWhenAvailable>false</StartWhenAvailable>\n"@, c, l);
    let d7 = d6 + "    <StartWhenAvailable>false</StartWhenAvailable>\n"@;
    lemma_calm_concat(d7, "    <RunOnlyIfNetworkAvailable>false</RunOnlyIfNetworkAvailable>\n"@, c, l);
    let d8 = d7 + "    <RunOnlyIfNetworkAvailable>false</RunOnlyIfNetworkAvailable>\n"@;
    lemma_calm_concat(d8, "    <RunOnlyIfIdle>false</RunOnlyIfIdle>\n    <Hidden>true</Hidden>\n"@, c, l);
    let d9 = d8 + "    <RunOnlyIfIdle>false</RunOnlyIfIdle>\n    <Hidden>true</Hidden>\n"@;
    lemma_calm_concat(d9, "    <Enabled>true</Enabled>\n    <WakeToRun>false</WakeToRun>\n"@, c, l);
    let d10 = d9 + "    <Enabled>true</Enabled>\n    <WakeToRun>false</WakeToRun>\n"@;
    lemma_calm_concat(d10, "    <ExecutionTimeLimit>PT2M</ExecutionTimeLimit>\n    <Priority>5</Priority>\n"@, c, l);
    let d11 = d10 + "    <ExecutionTimeLimit>PT2M</ExecutionTimeLimit>\n    <Priority>5</Priority>\n"@;
    lemma_calm_concat(d11, "    <IdleSettings>\n      <StopOnIdleEnd>false</StopOnIdleEnd>\n"@, c, l);
    let d12 = d11 + "    <IdleSettings>\n      <StopOnIdleEnd>false</StopOnIdleEnd>\n"@;
    lemma_calm_concat(d12, "      <RestartOnIdle>false</RestartOnIdle>\n    </IdleSettings>\n  </Settings>\n"@, c, l);
    let d13 = d12 + "      <RestartOnIdle>false</RestartOnIdle>\n    </IdleSettings>\n  </Settings>\n"@;
    lemma_calm_concat(d13, "  <Actions Context=\"Author\">\n    <Exec>\n      "@, c, l);
    let d14 = d13 + "  <Actions Context=\"Author\">\n    <Exec>\n      "@;
}

/// Escaped text holds no angle bracket and no quotation mark, and every ampersand in it begins
/// one of the five entities: nothing in it can be taken for markup.
pub proof fn escaped_text_is_safe(s: Seq<char>)
    ensures
        forall|i: int| 0 <= i < escaped(s).len() ==> (#[trigger] escaped(s)[i]) != '<',
        forall|i: int| 0 <= i < escaped(s).len() ==> (#[trigger] escaped(s)[i]) != '>',
        forall|i: int| 0 <= i < escaped(s).len() ==> (#[trigger] escaped(s)[i]) != '"',
        forall|i: int| 0 <= i < escaped(s).len() ==> (#[trigger] escaped(s)[i]) != '\'',
        forall|i: int|
            0 <= i < escaped(s).len() && (#[trigger] escaped(s)[i]) == '&' ==> entity_at(
                escaped(s),
                i,
            ),
    decreases s.len(),
{
    if s.len() > 0 {
        let head = escaped(s.drop_last());
        let piece = escaped_char(s.last());
        let whole = escaped(s);
        escaped_text_is_safe(s.drop_last());
        lemma_piece_is_safe(s.last());
        assert(whole == head + piece);
        assert forall|i: int| 0 <= i < whole.len() && (#[trigger] whole[i]) == '&' implies entity_at(
            whole,
            i,
        ) by {
            if i < head.len() {
                assert(head[i] == '&');
                lemma_entity_extends(head, piece, i);
            } else {
                assert(piece[i - head.len()] == '&');
                assert(i == head.len());
                assert(whole.subrange(i, i + piece.len()) =~= piece);
                lemma_entity_whole(whole, i, piece);
            }
        }
        assert forall|i: int| 0 <= i < whole.len() implies {
            let ch = #[trigger] whole[i];
            ch != '<' && ch != '>' && ch != '"' && ch != '\''
        } by {
            if i < head.len() {
                assert(whole[i] == head[i]);
            } else {
                assert(whole[i] == piece[i - head.len()]);
            }
        }
    }
}

/// One of the five XML entities stands in `s` at position `i`.
pub open spec fn entity_at(s: Seq<char>, i: int) -> bool {
    ||| occurs_at(s, "&amp;"@, i)
    ||| occurs_at(s, "&lt;"@, i)
    ||| occurs_at(s, "&gt;"@, i)
    ||| occurs_at(s, "&quot;"@, i)
    ||| occurs_at(s, "&apos;"@, i)
}

spec fn is_entity(u: Seq<char>) -> bool {
    u == "&amp;"@ || u == "&lt;"@ || u == "&gt;"@ || u == "&quot;"@ || u == "&apos;"@
}

proof fn lemma_entity_whole(s: Seq<char>, i: int, u: Seq<char>)
    requires
        is_entity(u),
        0 <= i,
        i + u.len() <= s.len(),
        s.subrange(i, i + u.len()) == u,
    ensures
        entity_at(s, i),
{
}

proof fn lemma_entity_extends(head: Seq<char>, tail: Seq<char>, i: int)
    requires
        entity_at(head, i),
    ensures
        entity_at(head + tail, i),
{
    let u = if occurs_at(head, "&amp;"@, i) {
        "&amp;"@
    } else if occurs_at(head, "&lt;"@, i) {
        "&lt;"@
    } else if occurs_at(head, "&gt;"@, i) {
        "&gt;"@
    } else if occurs_at(head, "&quot;"@, i) {
        "&quot;"@
    } else {
        "&apos;"@
    };
    assert((head + tail).subrange(i, i + u.len()) =~= head.subrange(i, i + u.len()));
    lemma_entity_whole(head + tail, i, u);
}

/// One escaped character: no angle bracket, no quotation mark, and an ampersand only in front of
/// an entity.
proof fn lemma_piece_is_safe(c: char)
    ensures
        forall|k: int|
            0 <= k < escaped_char(c).len() ==> {
                let ch = #[trigger] escaped_char(c)[k];
                &&& ch != '<' && ch != '>' && ch != '"' && ch != '\''
                &&& ch == '&' ==> k == 0 && is_entity(escaped_char(c))
            },
{
    reveal_strlit("&amp;");
    reveal_strlit("&lt;");
    reveal_strlit("&gt;");
    reveal_strlit("&quot;");
    reveal_strlit("&apos;");
    let u = escaped_char(c);
    assert forall|k: int| 0 <= k < u.len() implies {
        let ch = #[trigger] u[k];
        &&& ch != '<' && ch != '>' && ch != '"' && ch != '\''
        &&& ch == '&' ==> k == 0 && is_entity(u)
    } by {
        assert(k == 0 || k == 1 || k == 2 || k == 3 || k == 4 || k == 5);
    }
}

proof fn lemma_calm_escaped(s: Seq<char>, c: bool, l: bool)
    ensures
        calm(escaped(s), c, l),
{
    escaped_text_is_safe(s);
}

proof fn lemma_calm_trigger(user: Seq<char>, c: bool)
    ensures
        calm(xml_logon_trigger(user), c, false),
{
    let a = "    <LogonTrigger>\n      <Enabled>true</Enabled>\n      <UserId>"@;
    let b = "</UserId>\n      <Delay>PT15S</Delay>\n    </LogonTrigger>\n"@;
    reveal_strlit("    <LogonTrigger>\n      <Enabled>true</Enabled>\n      <UserId>");
    reveal_strlit("</UserId>\n      <Delay>PT15S</Delay>\n    </LogonTrigger>\n");
    reveal_with_fuel(calm_to, 70);
    assert(calm_to(a, a.len(), c, false));
    lemma_calm_to(a, a.len(), c, false);
    assert(calm_to(b, b.len(), c, false));
    lemma_calm_to(b, b.len(), c, false);
    lemma_calm_escaped(user, c, false);
    lemma_calm_concat(a, escaped(user), c, false);
    lemma_calm_concat(a + escaped(user), b, c, false);
}

proof fn lemma_calm_before(spec: TaskView, user: Seq<char>, c: bool, l: bool)
    requires
        l ==> !spec.logon_trigger,
    ensures
        calm(xml_before_command(spec, user), c, l),
{
    lemma_calm_opening(c, l);
    lemma_calm_description(c, l);
    lemma_calm_triggers(c, l);
    lemma_calm_principal(c, l);
    lemma_calm_settings(c, l);
    lemma_calm_escaped(spec.name, c, l);
    lemma_calm_escaped(spec.description, c, l);
    lemma_calm_escaped(user, c, l);
    let trigger = if spec.logon_trigger {
        xml_logon_trigger(user)
    } else {
        Seq::empty()
    };
    if spec.logon_trigger {
        lemma_calm_trigger(user, c);
    }
    assert(calm(trigger, c, l));
    let d0 = xml_opening();
    lemma_calm_concat(d0, escaped(spec.name), c, l);
    let d1 = d0 + escaped(spec.name);
    lemma_calm_concat(d1, "</URI>\n    <Description>"@, c, l);
    let d2 = d1 + "</URI>\n    <Description>"@;
    lemma_calm_concat(d2, escaped(spec.description), c, l);
    let d3 = d2 + escaped(spec.description);
    lemma_calm_concat(d3, "</Description>\n  </RegistrationInfo>\n  <Triggers>\n"@, c, l);
    let d4 = d3 + "</Description>\n  </RegistrationInfo>\n  <Triggers>\n"@;
    lemma_calm_concat(d4, trigger, c, l);
    let d5 = d4 + trigger;
    let principal = "  </Triggers>\n  <Principals>\n    <Principal id=\"Author\">\n      <UserId>"@;
    lemma_calm_concat(d5, principal, c, l);
    let d6 = d5 + principal;
    lemma_calm_concat(d6, escaped(user), c, l);
    let d7 = d6 + escaped(user);
    lemma_calm_concat(d7, xml_settings(), c, l);
}

/// Reading the command back out of a generated document gives exactly the program it was
/// generated for, whatever characters the path, the account and the texts of the task hold.
pub proof fn command_round_trips(spec: TaskView, exe: Seq<char>, user: Seq<char>)
    ensures
        command_in(task_xml(spec, exe, user)) == Some(exe),
{
    let before = xml_before_command(spec, user);
    let opening = "<Command>"@;
    let closing = "</Command>"@;
    let inside = escaped(exe);
    let after = xml_after_command(spec);
    let xml = task_xml(spec, exe, user);
    reveal_strlit("<Command>");
    reveal_strlit("</Command>");
    reveal_strlit("</Command>\n      <Arguments>");
    lemma_calm_before(spec, user, true, false);
    escaped_text_is_safe(exe);

    let open = before.len() as int;
    assert(xml.subrange(open, open + opening.len()) =~= opening);
    assert forall|k: int| 0 <= k < open implies !occurs_at(xml, opening, k) by {
        if occurs_at(xml, opening, k) {
            assert(xml.subrange(k, k + opening.len())[0] == '<');
            assert(xml.subrange(k, k + opening.len())[1] == 'C');
            assert(before[k] == '<');
            assert(xml[k + 1] == before[k + 1]);
        }
    }
    lemma_first_occurrence(xml, opening, 0, open);

    let start = open + opening.len();
    let end = start + inside.len();
    assert(closing =~= after.take(10));
    assert(xml.subrange(end, end + closing.len()) =~= closing);
    assert forall|k: int| start <= k < end implies !occurs_at(xml, closing, k) by {
        if occurs_at(xml, closing, k) {
            assert(xml.subrange(k, k + closing.len())[0] == '<');
            assert(xml[k] == inside[k - start]);
        }
    }
    lemma_first_occurrence(xml, closing, start, end);
    assert(xml.subrange(start, end) =~= inside);
    unescape_inverts_escape(exe);
}

proof fn lemma_calm_after(spec: TaskView, l: bool)
    ensures
        calm(xml_after_command(spec), false, l),
{
    let a = "</Command>\n      <Arguments>"@;
    let b = "</Arguments>\n    </Exec>\n  </Actions>\n</Task>"@;
    reveal_strlit("</Command>\n      <Arguments>");
    reveal_strlit("</Arguments>\n    </Exec>\n  </Actions>\n</Task>");
    reveal_with_fuel(calm_to, 50);
    assert(calm_to(a, a.len(), false, l));
    lemma_calm_to(a, a.len(), false, l);
    assert(calm_to(b, b.len(), false, l));
    lemma_calm_to(b, b.len(), false, l);
    lemma_calm_escaped(spec.args, false, l);
    lemma_calm_concat(a, escaped(spec.args), false, l);
    lemma_calm_concat(a + escaped(spec.args), b, false, l);
}

/// A generated document holds a logon trigger exactly when its task asks for one.
pub proof fn logon_trigger_only_on_request(spec: TaskView, exe: Seq<char>, user: Seq<char>)
    ensures
        contains(task_xml(spec, exe, user), "<LogonTrigger>"@) <==> spec.logon_trigger,
{
    let pat = "<LogonTrigger>"@;
    let xml = task_xml(spec, exe, user);
    reveal_strlit("<LogonTrigger>");
    if spec.logon_trigger {
        let first = "    <LogonTrigger>\n      <Enabled>true</Enabled>\n      <UserId>"@;
        reveal_strlit("    <LogonTrigger>\n      <Enabled>true</Enabled>\n      <UserId>");
        let head = xml_opening() + escaped(spec.name) + "</URI>\n    <Description>"@ + escaped(
            spec.description,
        ) + "</Description>\n  </RegistrationInfo>\n  <Triggers>\n"@;
        let at = head.len() as int + 4;
        let trigger = xml_logon_trigger(user);
        let before = xml_before_command(spec, user);
        assert(first.subrange(4, 4int + pat.len()) =~= pat);
        assert forall|k: int| 0 <= k < pat.len() implies #[trigger] xml.subrange(
            at,
            at + pat.len(),
        )[k] == pat[k] by {
            assert(xml[at + k] == before[at + k]);
            assert(before[at + k] == trigger[4 + k]);
            assert(trigger[4 + k] == first[4 + k]);
            assert(first.subrange(4, 4int + pat.len())[k] == first[4 + k]);
        }
        assert(xml.subrange(at, at + pat.len()) =~= pat);
        assert(occurs_at(xml, pat, at));
    } else {
        let before = xml_before_command(spec, user);
        lemma_calm_before(spec, user, false, true);
        reveal_strlit("<Command>");
        reveal_with_fuel(calm_to, 12);
        assert(calm_to("<Command>"@, 9, false, true));
        lemma_calm_to("<Command>"@, 9, false, true);
        lemma_calm_escaped(exe, false, true);
        lemma_calm_after(spec, true);
        lemma_calm_concat(before, "<Command>"@, false, true);
        lemma_calm_concat(before + "<Command>"@, escaped(exe), false, true);
        lemma_calm_concat(
            before + "<Command>"@ + escaped(exe),
            xml_after_command(spec),
            false,
            true,
        );
        assert forall|k: int| !occurs_at(xml, pat, k) by {
            if occurs_at(xml, pat, k) {
                assert(xml.subrange(k, k + pat.len())[0] == '<');
                assert(xml.subrange(k, k + pat.len())[1] == 'L');
                assert(xml.subrange(k, k + pat.len())[7] == 'r');
                assert(xml[k] == '<');
            }
        }
    }
}

/// Every mode has a registered task that applies exactly that mode, and no such task starts by
/// itself; the one task that does start at logon is the recovery task.
pub proof fn every_mode_has_its_task(mode: Mode)
    ensures
        exists|i: int|
            0 <= i < registered().len() && (#[trigger] registered()[i]).name == mode.task()
                && registered()[i].args == "--apply "@ + mode.name()
                && !registered()[i].logon_trigger,
        forall|i: int|
            0 <= i < registered().len() ==> ((#[trigger] registered()[i]).logon_trigger
                <==> registered()[i].args == "--recover"@),
{
    reveal_strlit("--apply ");
    reveal_strlit("--apply ethernet");
    reveal_strlit("--apply wifi");
    reveal_strlit("--apply wifi-only");
    reveal_strlit("--apply auto");
    reveal_strlit("--recover");
    reveal_strlit("ethernet");
    reveal_strlit("wifi");
    reveal_strlit("wifi-only");
    reveal_strlit("auto");
    let all = registered();
    assert(all[0].args =~= "--apply "@ + Mode::Ethernet.name());
    assert(all[1].args =~= "--apply "@ + Mode::Wifi.name());
    assert(all[2].args =~= "--apply "@ + Mode::WifiOnly.name());
    assert(all[3].args =~= "--apply "@ + Mode::Auto.name());
    assert forall|i: int| 0 <= i < all.len() implies ((#[trigger] all[i]).logon_trigger
        <==> all[i].args == "--recover"@) by {
        assert(i == 0 || i == 1 || i == 2 || i == 3 || i == 4);
        assert("--recover"@[2] == 'r');
        assert(all[i].args[2] == 'r' || all[i].args[2] == 'a');
    }
}

proof fn lemma_mode_plain(mode: Mode)
    ensures
        plain(mode.name()),
{
    reveal_strlit("ethernet");
    reveal_strlit("wifi");
    reveal_strlit("wifi-only");
    reveal_strlit("auto");
}

/// The program that a task starts takes the task's arguments as the command that they are meant to
/// be: the one mode of the task, or the recovery.
pub proof fn a_task_runs_its_command(mode: Mode)
    ensures
        command(split_args("--apply "@ + mode.name())) == Ok::<Cmd, Seq<char>>(Cmd::Apply(mode)),
        command(split_args("--recover"@)) == Ok::<Cmd, Seq<char>>(Cmd::Recover),
{
    lemma_mode_plain(mode);
    own_arguments_parse_back(false, false, mode);
    reveal_strlit("--apply ");
    reveal_strlit("--apply");
    reveal_strlit("--recover");
    reveal_strlit(" ");
    let verb = "--apply"@;
    let args = seq![verb, mode.name()];
    assert(plain(verb));
    assert(all_quoted(args) =~= args);
    assert(join(args.drop_last(), " "@) == verb) by {
        assert(args.drop_last()[0] == verb);
    }
    assert(join(args, " "@) =~= verb + " "@ + mode.name());
    assert("--apply "@ + mode.name() =~= verb + " "@ + mode.name());
    joined_arguments_split_back(args);
    let alone = seq!["--recover"@];
    assert(plain("--recover"@));
    assert(all_quoted(alone) =~= alone);
    joined_arguments_split_back(alone);
    assert("--recover"@[2] == 'r' && verb[2] == 'a');
}

/// Every task is registered under its own name, with a document that runs the installed program, for
/// the account, with the arguments of the task and the highest rights the account has.
#[verifier::spinoff_prover]
#[verifier::rlimit(40)]
pub proof fn every_task_is_registered_for_the_program(exe: Seq<char>, user: Seq<char>, i: int)
    requires
        0 <= i < 5,
    ensures
        ({
            let r = registrations(exe, user);
            let xml = r[i].1;
            &&& r.len() == 5 && registered().len() == 5
            &&& r[0].0 == "ApplyEthernet"@ && r[1].0 == "ApplyWifi"@ && r[2].0 == "ApplyWifiOnly"@
                && r[3].0 == "ApplyAuto"@ && r[4].0 == "Recover"@
            &&& registered()[i].name == r[i].0
            &&& command_in(xml) == Some(exe)
            &&& contains(xml, "<Command>"@ + escaped(exe))
            &&& contains(xml, "</Command>\n      <Arguments>"@ + escaped(registered()[i].args))
            &&& contains(xml, escaped(r[i].0) + "</URI>\n    <Description>"@)
            &&& contains(
                xml,
                "  </Triggers>\n  <Principals>\n    <Principal id=\"Author\">\n      <UserId>"@
                    + escaped(user),
            )
            &&& contains(
                xml,
                "      <RunLevel>HighestAvailable</RunLevel>\n    </Principal>\n  </Principals>\n"@,
            )
        }),
{
    let t = registered()[i];
    let xml = task_xml(t, exe, user);
    assert(registrations(exe, user)[i] == (t.name, xml));
    command_round_trips(t, exe, user);
    let open = "</Command>\n      <Arguments>"@;
    let close = "</Arguments>\n    </Exec>\n  </Actions>\n</Task>"@;
    let before = xml_before_command(t, user);
    let run = before + "<Command>"@ + escaped(exe);
    assert(xml =~= run + open + escaped(t.args) + close);
    lemma_itself(xml);
    lemma_piece(run + open + escaped(t.args), close, xml);
    lemma_field(run, open, escaped(t.args), xml);
    lemma_field(before, "<Command>"@, escaped(exe), xml);
    lemma_opening(t, user, xml);
}

/// What stands before the command, in every text that begins with it.
proof fn lemma_opening(t: TaskView, user: Seq<char>, xml: Seq<char>)
    requires
        xml_before_command(t, user).is_prefix_of(xml),
    ensures
        contains(xml, escaped(t.name) + "</URI>\n    <Description>"@),
        contains(
            xml,
            "  </Triggers>\n  <Principals>\n    <Principal id=\"Author\">\n      <UserId>"@
                + escaped(user),
        ),
        contains(
            xml,
            "      <RunLevel>HighestAvailable</RunLevel>\n    </Principal>\n  </Principals>\n"@,
        ),
{
    let before = xml_before_command(t, user);
    let trigger = if t.logon_trigger {
        xml_logon_trigger(user)
    } else {
        Seq::empty()
    };
    let named = xml_opening() + escaped(t.name) + "</URI>\n    <Description>"@;
    let triggers = "</Description>\n  </RegistrationInfo>\n  <Triggers>\n"@;
    let described = named + escaped(t.description) + triggers;
    let principal =
        "  </Triggers>\n  <Principals>\n    <Principal id=\"Author\">\n      <UserId>"@;
    let owned = described + trigger + principal + escaped(user);
    let first = "</UserId>\n      <LogonType>InteractiveToken</LogonType>\n"@;
    let level = "      <RunLevel>HighestAvailable</RunLevel>\n    </Principal>\n  </Principals>\n"@;
    assert(before == owned + xml_settings());
    let opening = owned + first + level;
    assert(opening.is_prefix_of(xml)) by {
        let size = (first + level).len() as int;
        assert(xml_settings().subrange(0, size) =~= first + level);
        assert(before.subrange(0, opening.len() as int) =~= owned + xml_settings().subrange(
            0,
            size,
        ));
        assert(opening =~= owned + (first + level));
        assert(xml.subrange(0, opening.len() as int) =~= xml.subrange(
            0,
            before.len() as int,
        ).subrange(0, opening.len() as int));
    }
    lemma_piece(owned + first, level, xml);
    lemma_piece(owned, first, xml);
    lemma_field(described + trigger, principal, escaped(user), xml);
    lemma_piece(described, trigger, xml);
    lemma_piece(named + escaped(t.description), triggers, xml);
    lemma_piece(named, escaped(t.description), xml);
    lemma_field(xml_opening(), escaped(t.name), "</URI>\n    <Description>"@, xml);
}

/// A task counts as registered exactly where something was found under its name, with the result of
/// its last run; its command is the one in its document, so that of a task that was registered for
/// a program is that program.
pub proof fn a_task_is_judged_by_what_is_found(
    name: Seq<char>,
    probe: TaskProbe,
    spec: TaskView,
    exe: Seq<char>,
    user: Seq<char>,
)
    ensures
        ({
            let h = health_of(name, Some(probe));
            let none = health_of(name, None);
            &&& h.name == name && h.registered && h.last_result == probe.last_result
            &&& probe.xml is None ==> h.command is None
            &&& probe.xml is Some && probe.xml->0@ == task_xml(spec, exe, user) ==> h.command
                == Some(exe)
            &&& none.name == name && !none.registered && none.command is None
                && none.last_result is None
        }),
{
    command_round_trips(spec, exe, user);
}

} // verus!
