//! Scheduled tasks: how the unelevated widget performs an administrator-only action without a
//! UAC prompt on every click.
//!
//! A task registered with `RunLevel = HighestAvailable` for the installing user runs elevated
//! when started, and Windows lets a process start a task its own user owns. Each task carries
//! one fixed verb: a task that runs whatever it is told with an elevated token would be an
//! integrity bridge for every process running as that user.
use vstd::prelude::*;
use vstd::string::*;

use crate::config::Mode;
use crate::text;

verus! {

/// Task Scheduler folder holding everything LinkSwitch registers.
pub const FOLDER: &'static str = "LinkSwitch";

pub struct TaskSpec {
    pub name: &'static str,
    pub args: &'static str,
    pub description: &'static str,
    /// Runs at logon rather than only on demand.
    pub logon_trigger: bool,
}

/// A task as its texts.
pub struct TaskView {
    pub name: Seq<char>,
    pub args: Seq<char>,
    pub description: Seq<char>,
    pub logon_trigger: bool,
}

impl View for TaskSpec {
    type V = TaskView;

    open spec fn view(&self) -> TaskView {
        TaskView {
            name: self.name@,
            args: self.args@,
            description: self.description@,
            logon_trigger: self.logon_trigger,
        }
    }
}

/// Every task LinkSwitch registers: one per mode, and the recovery task.
pub open spec fn registered() -> Seq<TaskView> {
    seq![
        TaskView {
            name: "ApplyEthernet"@,
            args: "--apply ethernet"@,
            description: "LinkSwitch: send internet traffic over Ethernet."@,
            logon_trigger: false,
        },
        TaskView {
            name: "ApplyWifi"@,
            args: "--apply wifi"@,
            description: "LinkSwitch: send internet traffic over Wi-Fi. Ethernet stays connected and link-up, and keeps serving its own subnet."@,
            logon_trigger: false,
        },
        TaskView {
            name: "ApplyWifiOnly"@,
            args: "--apply wifi-only"@,
            description: "LinkSwitch: detach Ethernet's IP stack, leaving Wi-Fi as the only IP link. The cable stays plugged in."@,
            logon_trigger: false,
        },
        TaskView {
            name: "ApplyAuto"@,
            args: "--apply auto"@,
            description: "LinkSwitch: hand both adapters back to Windows' automatic metrics."@,
            logon_trigger: false,
        },
        TaskView {
            name: "Recover"@,
            args: "--recover"@,
            description: "LinkSwitch: at logon, undo any half-finished change left by an interrupted switch."@,
            logon_trigger: true,
        },
    ]
}

/// Every task LinkSwitch registers.
pub fn all_tasks() -> (r: Vec<TaskSpec>)
    ensures
        r@.map_values(|t: TaskSpec| t@) == registered(),
{
    let mut r: Vec<TaskSpec> = Vec::new();
    r.push(
        TaskSpec {
            name: "ApplyEthernet",
            args: "--apply ethernet",
            description: "LinkSwitch: send internet traffic over Ethernet.",
            logon_trigger: false,
        },
    );
    r.push(
        TaskSpec {
            name: "ApplyWifi",
            args: "--apply wifi",
            description: "LinkSwitch: send internet traffic over Wi-Fi. Ethernet stays connected and link-up, and keeps serving its own subnet.",
            logon_trigger: false,
        },
    );
    r.push(
        TaskSpec {
            name: "ApplyWifiOnly",
            args: "--apply wifi-only",
            description: "LinkSwitch: detach Ethernet's IP stack, leaving Wi-Fi as the only IP link. The cable stays plugged in.",
            logon_trigger: false,
        },
    );
    r.push(
        TaskSpec {
            name: "ApplyAuto",
            args: "--apply auto",
            description: "LinkSwitch: hand both adapters back to Windows' automatic metrics.",
            logon_trigger: false,
        },
    );
    r.push(
        TaskSpec {
            name: "Recover",
            args: "--recover",
            description: "LinkSwitch: at logon, undo any half-finished change left by an interrupted switch.",
            logon_trigger: true,
        },
    );
    assert(r@.map_values(|t: TaskSpec| t@) =~= registered());
    r
}

/// The full path of a task in the Task Scheduler.
pub open spec fn path_of(name: Seq<char>) -> Seq<char> {
    "\\LinkSwitch\\"@ + name
}

pub fn task_path(name: &str) -> (r: String)
    ensures
        r@ == path_of(name@),
{
    let mut r = "\\LinkSwitch\\".to_owned();
    r.append(name);
    r
}

// --- escaping ----------------------------------------------------------------------------

/// How one character stands in an XML text node or attribute value.
pub open spec fn escaped_char(c: char) -> Seq<char> {
    if c == '&' {
        "&amp;"@
    } else if c == '<' {
        "&lt;"@
    } else if c == '>' {
        "&gt;"@
    } else if c == '"' {
        "&quot;"@
    } else if c == '\'' {
        "&apos;"@
    } else {
        seq![c]
    }
}

/// A text with every character escaped in turn.
pub open spec fn escaped(s: Seq<char>) -> Seq<char>
    decreases s.len(),
{
    if s.len() == 0 {
        Seq::empty()
    } else {
        escaped(s.drop_last()) + escaped_char(s.last())
    }
}

/// Escape text for an XML text node or attribute value.
///
/// The substituted values are a Windows account name and an install path: a domain containing
/// `&` or an apostrophe in a user's name would otherwise produce a malformed document.
pub fn xml_escape(s: &str) -> (r: String)
    ensures
        r@ == escaped(s@),
{
    let v = text::chars_of(s);
    let mut r = String::new();
    let mut i: usize = 0;
    while i < v.len()
        invariant
            i <= v.len(),
            v@ == s@,
            r@ == escaped(s@.take(i as int)),
        decreases v.len() - i,
    {
        let c = v[i];
        if c == '&' {
            r.append("&amp;");
        } else if c == '<' {
            r.append("&lt;");
        } else if c == '>' {
            r.append("&gt;");
        } else if c == '"' {
            r.append("&quot;");
        } else if c == '\'' {
            r.append("&apos;");
        } else {
            r.push(c);
        }
        assert(s@.take(i + 1).drop_last() =~= s@.take(i as int));
        i = i + 1;
        assert(r@ =~= escaped(s@.take(i as int)));
    }
    assert(s@.take(i as int) =~= s@);
    r
}

/// The entities of XML turned back into characters, `&amp;` last so that an entity spelled out
/// in the text is not expanded twice.
pub open spec fn unescaped(s: Seq<char>) -> Seq<char> {
    let a = text::replaced(s, "&lt;"@, "<"@);
    let b = text::replaced(a, "&gt;"@, ">"@);
    let c = text::replaced(b, "&quot;"@, "\""@);
    let d = text::replaced(c, "&apos;"@, "'"@);
    text::replaced(d, "&amp;"@, "&"@)
}

pub fn unescape(s: &str) -> (r: String)
    ensures
        r@ == unescaped(s@),
{
    proof {
        reveal_strlit("&lt;");
        reveal_strlit("&gt;");
        reveal_strlit("&quot;");
        reveal_strlit("&apos;");
        reveal_strlit("&amp;");
    }
    let a = text::replace_text(s, "&lt;", "<");
    let b = text::replace_text(a.as_str(), "&gt;", ">");
    let c = text::replace_text(b.as_str(), "&quot;", "\"");
    let d = text::replace_text(c.as_str(), "&apos;", "'");
    text::replace_text(d.as_str(), "&amp;", "&")
}

// --- escaping is undone by unescaping ----------------------------------------------------

/// The pieces that `f` gives for the characters of `s`, one after another.
spec fn spelled(s: Seq<char>, f: spec_fn(char) -> Seq<char>) -> Seq<char>
    decreases s.len(),
{
    if s.len() == 0 {
        Seq::empty()
    } else {
        f(s[0]) + spelled(s.skip(1), f)
    }
}

/// A piece in which no occurrence of `pat` can begin, whatever follows it.
spec fn inert(u: Seq<char>, pat: Seq<char>) -> bool {
    &&& u.len() > 0
    &&& exists|k: int| 0 <= k < u.len() && k < pat.len() && #[trigger] u[k] != pat[k]
    &&& forall|k: int| 1 <= k < u.len() ==> #[trigger] u[k] != pat[0]
}

proof fn lemma_replaced_step(s: Seq<char>, pat: Seq<char>, rep: Seq<char>)
    requires
        s.len() > 0,
        pat.len() > 0,
        s.len() < pat.len() || s.take(pat.len() as int) != pat,
    ensures
        text::replaced(s, pat, rep) == seq![s[0]] + text::replaced(s.skip(1), pat, rep),
{
    if s.len() < pat.len() {
        assert(s =~= seq![s[0]] + s.skip(1));
    }
}

proof fn lemma_replaced_unmatched(u: Seq<char>, rest: Seq<char>, pat: Seq<char>, rep: Seq<char>)
    requires
        pat.len() > 0,
        forall|k: int| 0 <= k < u.len() ==> #[trigger] u[k] != pat[0],
    ensures
        text::replaced(u + rest, pat, rep) == u + text::replaced(rest, pat, rep),
    decreases u.len(),
{
    if u.len() == 0 {
        assert(u + rest =~= rest);
        assert(u + text::replaced(rest, pat, rep) =~= text::replaced(rest, pat, rep));
    } else {
        let s = u + rest;
        if s.len() >= pat.len() {
            assert(s.take(pat.len() as int)[0] == u[0]);
        }
        lemma_replaced_step(s, pat, rep);
        assert(s.skip(1) =~= u.skip(1) + rest);
        assert forall|k: int| 0 <= k < u.skip(1).len() implies #[trigger] u.skip(1)[k] != pat[0] by {
            assert(u.skip(1)[k] == u[k + 1]);
        }
        lemma_replaced_unmatched(u.skip(1), rest, pat, rep);
        assert(seq![s[0]] + (u.skip(1) + text::replaced(rest, pat, rep)) =~= u + text::replaced(
            rest,
            pat,
            rep,
        ));
    }
}

proof fn lemma_replaced_inert(u: Seq<char>, rest: Seq<char>, pat: Seq<char>, rep: Seq<char>)
    requires
        pat.len() > 0,
        inert(u, pat),
    ensures
        text::replaced(u + rest, pat, rep) == u + text::replaced(rest, pat, rep),
{
    let s = u + rest;
    let k = choose|k: int| 0 <= k < u.len() && k < pat.len() && #[trigger] u[k] != pat[k];
    if s.len() >= pat.len() {
        assert(s.take(pat.len() as int)[k] == u[k]);
    }
    lemma_replaced_step(s, pat, rep);
    let tail = u.skip(1);
    assert(s.skip(1) =~= tail + rest);
    assert forall|j: int| 0 <= j < tail.len() implies #[trigger] tail[j] != pat[0] by {
        assert(tail[j] == u[j + 1]);
    }
    lemma_replaced_unmatched(tail, rest, pat, rep);
    assert(seq![s[0]] + (tail + text::replaced(rest, pat, rep)) =~= u + text::replaced(
        rest,
        pat,
        rep,
    ));
}

/// Replacing one entity turns the spelling that uses it into the one that does not.
proof fn lemma_stage(
    s: Seq<char>,
    f: spec_fn(char) -> Seq<char>,
    g: spec_fn(char) -> Seq<char>,
    pat: Seq<char>,
    rep: Seq<char>,
)
    requires
        pat.len() > 0,
        forall|c: char| #[trigger]
            f(c) == pat && g(c) == rep || f(c) == g(c) && inert(f(c), pat),
    ensures
        text::replaced(spelled(s, f), pat, rep) == spelled(s, g),
    decreases s.len(),
{
    if s.len() > 0 {
        let rest = spelled(s.skip(1), f);
        lemma_stage(s.skip(1), f, g, pat, rep);
        let u = f(s[0]);
        if u == pat && g(s[0]) == rep {
            let whole = u + rest;
            assert(whole.take(pat.len() as int) =~= pat);
            assert(whole.skip(pat.len() as int) =~= rest);
        } else {
            lemma_replaced_inert(u, rest, pat, rep);
        }
    }
}

proof fn lemma_spelled_push(s: Seq<char>, c: char, f: spec_fn(char) -> Seq<char>)
    ensures
        spelled(s.push(c), f) == spelled(s, f) + f(c),
    decreases s.len(),
{
    if s.len() == 0 {
        assert(s.push(c).skip(1) =~= s);
        assert(spelled(s.push(c), f) =~= spelled(s, f) + f(c));
    } else {
        assert(s.push(c).skip(1) =~= s.skip(1).push(c));
        lemma_spelled_push(s.skip(1), c, f);
        assert(spelled(s.push(c), f) =~= spelled(s, f) + f(c));
    }
}

proof fn lemma_escaped_is_spelled(s: Seq<char>)
    ensures
        escaped(s) == spelled(s, |c: char| escaped_char(c)),
    decreases s.len(),
{
    if s.len() > 0 {
        lemma_escaped_is_spelled(s.drop_last());
        lemma_spelled_push(s.drop_last(), s.last(), |c: char| escaped_char(c));
        assert(s.drop_last().push(s.last()) =~= s);
    }
}

proof fn lemma_spelled_plain(s: Seq<char>)
    ensures
        spelled(s, |c: char| seq![c]) == s,
    decreases s.len(),
{
    if s.len() > 0 {
        lemma_spelled_plain(s.skip(1));
        assert(seq![s[0]] + s.skip(1) =~= s);
    }
}

/// An entity is inert for another one: they differ in the second or third character, and an
/// ampersand stands only at the front.
proof fn lemma_entity_inert(u: Seq<char>, pat: Seq<char>)
    requires
        4 <= u.len() <= 6,
        4 <= pat.len(),
        pat[0] == '&',
        u[1] != pat[1] || u[2] != pat[2],
        u[1] != '&' && u[2] != '&' && u[3] != '&',
        u.len() > 4 ==> u[4] != '&',
        u.len() > 5 ==> u[5] != '&',
    ensures
        inert(u, pat),
{
    assert forall|k: int| 1 <= k < u.len() implies #[trigger] u[k] != pat[0] by {
        assert(k == 1 || k == 2 || k == 3 || k == 4 || k == 5);
    }
}

proof fn lemma_plain_inert(c: char, pat: Seq<char>)
    requires
        pat.len() > 0,
        c != pat[0],
    ensures
        inert(seq![c], pat),
{
    assert(seq![c][0] != pat[0]);
}

/// What the five entities are made of.
proof fn lemma_entities()
    ensures
        "&lt;"@ =~= seq!['&', 'l', 't', ';'],
        "&gt;"@ =~= seq!['&', 'g', 't', ';'],
        "&quot;"@ =~= seq!['&', 'q', 'u', 'o', 't', ';'],
        "&apos;"@ =~= seq!['&', 'a', 'p', 'o', 's', ';'],
        "&amp;"@ =~= seq!['&', 'a', 'm', 'p', ';'],
        "<"@ =~= seq!['<'],
        ">"@ =~= seq!['>'],
        "\""@ =~= seq!['"'],
        "'"@ =~= seq!['\''],
        "&"@ =~= seq!['&'],
{
    reveal_strlit("&lt;");
    reveal_strlit("&gt;");
    reveal_strlit("&quot;");
    reveal_strlit("&apos;");
    reveal_strlit("&amp;");
    reveal_strlit("<");
    reveal_strlit(">");
    reveal_strlit("\"");
    reveal_strlit("'");
    reveal_strlit("&");
}

/// A character spelled by an entity other than `pat`, or as itself, is inert for `pat`.
proof fn lemma_spelling_inert(c: char, u: Seq<char>, pat: Seq<char>)
    requires
        u == escaped_char(c) || u == seq![c] && c != '&',
        pat == "&lt;"@ || pat == "&gt;"@ || pat == "&quot;"@ || pat == "&apos;"@ || pat == "&amp;"@,
        u != pat,
    ensures
        inert(u, pat),
{
    lemma_entities();
    if u == seq![c] && c != '&' {
        lemma_plain_inert(c, pat);
    } else {
        lemma_entity_inert(u, pat);
    }
}

/// Unescaping gives back exactly the text that was escaped.
pub proof fn unescape_inverts_escape(s: Seq<char>)
    ensures
        unescaped(escaped(s)) == s,
{
    lemma_entities();
    let f0 = |c: char| escaped_char(c);
    let f1 = |c: char| if c == '<' { seq!['<'] } else { escaped_char(c) };
    let f2 = |c: char| if c == '>' { seq!['>'] } else { f1(c) };
    let f3 = |c: char| if c == '"' { seq!['"'] } else { f2(c) };
    let f4 = |c: char| if c == '\'' { seq!['\''] } else { f3(c) };
    let f5 = |c: char| seq![c];
    assert forall|c: char| #[trigger]
        f0(c) == "&lt;"@ && f1(c) == "<"@ || f0(c) == f1(c) && inert(f0(c), "&lt;"@) by {
        if f0(c) != "&lt;"@ {
            lemma_spelling_inert(c, f0(c), "&lt;"@);
        }
    }
    lemma_stage(s, f0, f1, "&lt;"@, "<"@);
    assert forall|c: char| #[trigger]
        f1(c) == "&gt;"@ && f2(c) == ">"@ || f1(c) == f2(c) && inert(f1(c), "&gt;"@) by {
        if f1(c) != "&gt;"@ {
            lemma_spelling_inert(c, f1(c), "&gt;"@);
        }
    }
    lemma_stage(s, f1, f2, "&gt;"@, ">"@);
    assert forall|c: char| #[trigger]
        f2(c) == "&quot;"@ && f3(c) == "\""@ || f2(c) == f3(c) && inert(f2(c), "&quot;"@) by {
        if f2(c) != "&quot;"@ {
            lemma_spelling_inert(c, f2(c), "&quot;"@);
        }
    }
    lemma_stage(s, f2, f3, "&quot;"@, "\""@);
    assert forall|c: char| #[trigger]
        f3(c) == "&apos;"@ && f4(c) == "'"@ || f3(c) == f4(c) && inert(f3(c), "&apos;"@) by {
        if f3(c) != "&apos;"@ {
            lemma_spelling_inert(c, f3(c), "&apos;"@);
        }
    }
    lemma_stage(s, f3, f4, "&apos;"@, "'"@);
    assert forall|c: char| #[trigger]
        f4(c) == "&amp;"@ && f5(c) == "&"@ || f4(c) == f5(c) && inert(f4(c), "&amp;"@) by {
        if f4(c) != "&amp;"@ {
            lemma_spelling_inert(c, f4(c), "&amp;"@);
        }
    }
    lemma_stage(s, f4, f5, "&amp;"@, "&"@);
    lemma_escaped_is_spelled(s);
    lemma_spelled_plain(s);
}

// --- the task document -------------------------------------------------------------------

/// The text before a task's name.
pub open spec fn xml_opening() -> Seq<char> {
    "<?xml version=\"1.0\" encoding=\"UTF-16\"?>\n"@
        + "<Task version=\"1.4\" xmlns=\"http://schemas.microsoft.com/windows/2004/02/mit/task\">\n"@
        + "  <RegistrationInfo>\n    <Author>LinkSwitch</Author>\n    <URI>\\LinkSwitch\\"@
}

/// The trigger that starts a task fifteen seconds after its user logs on.
pub open spec fn xml_logon_trigger(user: Seq<char>) -> Seq<char> {
    "    <LogonTrigger>\n      <Enabled>true</Enabled>\n      <UserId>"@ + escaped(user)
        + "</UserId>\n      <Delay>PT15S</Delay>\n    </LogonTrigger>\n"@
}

/// Several defaults of Task Scheduler are wrong here: by default a task does not start, or stops,
/// on battery power; a second start while the first is running is dropped; and a run may last
/// three days.
pub open spec fn xml_settings() -> Seq<char> {
    "</UserId>\n      <LogonType>InteractiveToken</LogonType>\n"@
        + "      <RunLevel>HighestAvailable</RunLevel>\n    </Principal>\n  </Principals>\n"@
        + "  <Settings>\n    <DisallowStartIfOnBatteries>false</DisallowStartIfOnBatteries>\n"@
        + "    <StopIfGoingOnBatteries>false</StopIfGoingOnBatteries>\n"@
        + "    <MultipleInstancesPolicy>Queue</MultipleInstancesPolicy>\n"@
        + "    <AllowStartOnDemand>true</AllowStartOnDemand>\n"@
        + "    <AllowHardTerminate>true</AllowHardTerminate>\n"@
        + "    <StartWhenAvailable>false</StartWhenAvailable>\n"@
        + "    <RunOnlyIfNetworkAvailable>false</RunOnlyIfNetworkAvailable>\n"@
        + "    <RunOnlyIfIdle>false</RunOnlyIfIdle>\n    <Hidden>true</Hidden>\n"@
        + "    <Enabled>true</Enabled>\n    <WakeToRun>false</WakeToRun>\n"@
        + "    <ExecutionTimeLimit>PT2M</ExecutionTimeLimit>\n    <Priority>5</Priority>\n"@
        + "    <IdleSettings>\n      <StopOnIdleEnd>false</StopOnIdleEnd>\n"@
        + "      <RestartOnIdle>false</RestartOnIdle>\n    </IdleSettings>\n  </Settings>\n"@
        + "  <Actions Context=\"Author\">\n    <Exec>\n      "@
}

/// The document before the command that a task runs.
pub open spec fn xml_before_command(spec: TaskView, user: Seq<char>) -> Seq<char> {
    xml_opening() + escaped(spec.name) + "</URI>\n    <Description>"@ + escaped(spec.description)
        + "</Description>\n  </RegistrationInfo>\n  <Triggers>\n"@ + (if spec.logon_trigger {
        xml_logon_trigger(user)
    } else {
        Seq::empty()
    }) + "  </Triggers>\n  <Principals>\n    <Principal id=\"Author\">\n      <UserId>"@ + escaped(
        user,
    ) + xml_settings()
}

/// The document after the command that a task runs.
pub open spec fn xml_after_command(spec: TaskView) -> Seq<char> {
    "</Command>\n      <Arguments>"@ + escaped(spec.args)
        + "</Arguments>\n    </Exec>\n  </Actions>\n</Task>"@
}

/// The whole document that registers a task.
pub open spec fn task_xml(spec: TaskView, exe: Seq<char>, user: Seq<char>) -> Seq<char> {
    xml_before_command(spec, user) + "<Command>"@ + escaped(exe) + xml_after_command(spec)
}

fn settings_text() -> (r: String)
    ensures
        r@ == xml_settings(),
{
    let mut r = "</UserId>\n      <LogonType>InteractiveToken</LogonType>\n".to_owned();
    r.append("      <RunLevel>HighestAvailable</RunLevel>\n    </Principal>\n  </Principals>\n");
    r.append("  <Settings>\n    <DisallowStartIfOnBatteries>false</DisallowStartIfOnBatteries>\n");
    r.append("    <StopIfGoingOnBatteries>false</StopIfGoingOnBatteries>\n");
    r.append("    <MultipleInstancesPolicy>Queue</MultipleInstancesPolicy>\n");
    r.append("    <AllowStartOnDemand>true</AllowStartOnDemand>\n");
    r.append("    <AllowHardTerminate>true</AllowHardTerminate>\n");
    r.append("    <StartWhenAvailable>false</StartWhenAvailable>\n");
    r.append("    <RunOnlyIfNetworkAvailable>false</RunOnlyIfNetworkAvailable>\n");
    r.append("    <RunOnlyIfIdle>false</RunOnlyIfIdle>\n    <Hidden>true</Hidden>\n");
    r.append("    <Enabled>true</Enabled>\n    <WakeToRun>false</WakeToRun>\n");
    r.append("    <ExecutionTimeLimit>PT2M</ExecutionTimeLimit>\n    <Priority>5</Priority>\n");
    r.append("    <IdleSettings>\n      <StopOnIdleEnd>false</StopOnIdleEnd>\n");
    r.append("      <RestartOnIdle>false</RestartOnIdle>\n    </IdleSettings>\n  </Settings>\n");
    r.append("  <Actions Context=\"Author\">\n    <Exec>\n      ");
    r
}

fn before_command_text(spec: &TaskSpec, user: &str) -> (r: String)
    ensures
        r@ == xml_before_command(spec@, user@),
{
    let mut r = "<?xml version=\"1.0\" encoding=\"UTF-16\"?>\n".to_owned();
    r.append(
        "<Task version=\"1.4\" xmlns=\"http://schemas.microsoft.com/windows/2004/02/mit/task\">\n",
    );
    r.append("  <RegistrationInfo>\n    <Author>LinkSwitch</Author>\n    <URI>\\LinkSwitch\\");
    r.append(xml_escape(spec.name).as_str());
    r.append("</URI>\n    <Description>");
    r.append(xml_escape(spec.description).as_str());
    r.append("</Description>\n  </RegistrationInfo>\n  <Triggers>\n");
    let ghost head = r@;
    let account = xml_escape(user);
    if spec.logon_trigger {
        let mut t = "    <LogonTrigger>\n      <Enabled>true</Enabled>\n      <UserId>".to_owned();
        t.append(account.as_str());
        t.append("</UserId>\n      <Delay>PT15S</Delay>\n    </LogonTrigger>\n");
        r.append(t.as_str());
    } else {
        assert(r@ =~= head + Seq::<char>::empty());
    }
    r.append("  </Triggers>\n  <Principals>\n    <Principal id=\"Author\">\n      <UserId>");
    r.append(account.as_str());
    r.append(settings_text().as_str());
    r
}

/// Build the task XML.
pub fn build_xml(spec: &TaskSpec, exe: &str, user: &str) -> (r: String)
    ensures
        r@ == task_xml(spec@, exe@, user@),
{
    let mut r = before_command_text(spec, user);
    r.append("<Command>");
    r.append(xml_escape(exe).as_str());
    let mut after = "</Command>\n      <Arguments>".to_owned();
    after.append(xml_escape(spec.args).as_str());
    after.append("</Arguments>\n    </Exec>\n  </Actions>\n</Task>");
    r.append(after.as_str());
    r
}

/// The command in a task's XML: what stands between the first `<Command>` and the first
/// `</Command>` after it, with its entities turned back into characters.
pub open spec fn command_in(xml: Seq<char>) -> Option<Seq<char>> {
    match text::index_from(xml, "<Command>"@, 0) {
        None => None,
        Some(open) => {
            let start = open + "<Command>"@.len();
            match text::index_from(xml, "</Command>"@, start) {
                None => None,
                Some(end) => Some(unescaped(xml.subrange(start, end))),
            }
        },
    }
}

/// Pull `<Command>...</Command>` out of a task's XML.
pub fn extract_command(xml: &str) -> (r: Option<String>)
    ensures
        match r {
            Some(command) => command_in(xml@) == Some(command@),
            None => command_in(xml@) is None,
        },
{
    let v = text::chars_of(xml);
    let opening = text::chars_of("<Command>");
    let closing = text::chars_of("</Command>");
    match text::find_from(&v, &opening, 0) {
        None => None,
        Some(open) => {
            proof {
                text::lemma_index_from(v@, opening@, 0);
                assert(open + opening@.len() <= v.len());
            }
            let start: usize = open + opening.len();
            match text::find_from(&v, &closing, start) {
                None => None,
                Some(end) => {
                    proof {
                        text::lemma_index_from(v@, closing@, start as int);
                    }
                    let inside = text::slice_text(&v, start, end);
                    Some(unescape(inside.as_str()))
                },
            }
        },
    }
}

/// The account tasks are registered for: `DOMAIN\User`, or the user alone without a domain.
pub open spec fn account(domain: Seq<char>, user: Seq<char>) -> Seq<char> {
    if domain.len() == 0 {
        user
    } else {
        domain + "\\"@ + user
    }
}

/// The account tasks are registered for. The arguments are the values of `USERDOMAIN` and
/// `USERNAME`, empty where they are not set.
pub fn current_user(domain: &str, user: &str) -> (r: String)
    ensures
        r@ == account(domain@, user@),
{
    if domain.unicode_len() == 0 {
        user.to_owned()
    } else {
        let mut r = domain.to_owned();
        r.append("\\");
        r.append(user);
        r
    }
}

/// One task to hand to Task Scheduler.
#[derive(Debug)]
pub struct Registration {
    pub name: String,
    pub xml: String,
}

/// The registrations for a program and an account, one per task, in order.
pub open spec fn registrations(exe: Seq<char>, user: Seq<char>) -> Seq<(Seq<char>, Seq<char>)> {
    registered().map_values(|t: TaskView| (t.name, task_xml(t, exe, user)))
}

/// What it takes to register, or update, every task.
pub fn register_all(exe: &str, user: &str) -> (r: Vec<Registration>)
    ensures
        r@.map_values(|t: Registration| (t.name@, t.xml@)) == registrations(exe@, user@),
{
    let tasks = all_tasks();
    let mut out: Vec<Registration> = Vec::new();
    let mut i: usize = 0;
    while i < tasks.len()
        invariant
            i <= tasks.len(),
            tasks@.map_values(|t: TaskSpec| t@) == registered(),
            out@.len() == i,
            forall|k: int|
                0 <= k < i ==> (#[trigger] out@[k]).name@ == tasks@[k]@.name && out@[k].xml@
                    == task_xml(tasks@[k]@, exe@, user@),
        decreases tasks.len() - i,
    {
        out.push(Registration { name: tasks[i].name.to_owned(), xml: build_xml(&tasks[i], exe, user) });
        i = i + 1;
    }
    proof {
        let got = out@.map_values(|t: Registration| (t.name@, t.xml@));
        let want = registrations(exe@, user@);
        let views = tasks@.map_values(|t: TaskSpec| t@);
        assert(views.len() == tasks@.len());
        assert forall|k: int| 0 <= k < got.len() implies got[k] == want[k] by {
            assert(views[k] == tasks@[k]@);
            assert(out@[k].name@ == tasks@[k]@.name);
        }
        assert(got =~= want);
    }
    out
}

/// What Task Scheduler knows of a registered task.
#[derive(Debug)]
pub struct TaskProbe {
    pub last_result: Option<i32>,
    pub xml: Option<String>,
}

/// What a registered task is pointing at, so the widget can notice a stale install.
#[derive(Debug, Clone)]
pub struct TaskHealth {
    pub name: String,
    pub registered: bool,
    pub command: Option<String>,
    pub last_result: Option<i32>,
}

#[verifier::ext_equal]
pub struct HealthView {
    pub name: Seq<char>,
    pub registered: bool,
    pub command: Option<Seq<char>>,
    pub last_result: Option<i32>,
}

impl View for TaskHealth {
    type V = HealthView;

    open spec fn view(&self) -> HealthView {
        HealthView {
            name: self.name@,
            registered: self.registered,
            command: match self.command {
                Some(c) => Some(c@),
                None => None,
            },
            last_result: self.last_result,
        }
    }
}

/// The health of one task, from what was found under its name.
pub open spec fn health_of(name: Seq<char>, found: Option<TaskProbe>) -> HealthView {
    HealthView {
        name,
        registered: found is Some,
        command: match found {
            Some(p) => match p.xml {
                Some(xml) => command_in(xml@),
                None => None,
            },
            None => None,
        },
        last_result: match found {
            Some(p) => p.last_result,
            None => None,
        },
    }
}

/// The health of one task, from what was found under its name.
pub fn inspect(name: &str, found: &Option<TaskProbe>) -> (r: TaskHealth)
    ensures
        r@ == health_of(name@, *found),
{
    match found {
        Some(p) => TaskHealth {
            name: name.to_owned(),
            registered: true,
            command: match &p.xml {
                Some(xml) => extract_command(xml.as_str()),
                None => None,
            },
            last_result: p.last_result,
        },
        None => TaskHealth {
            name: name.to_owned(),
            registered: false,
            command: None,
            last_result: None,
        },
    }
}

/// What was found under the name of task `i`; nothing past the end of the answers.
pub open spec fn found_at(found: Seq<Option<TaskProbe>>, i: int) -> Option<TaskProbe> {
    if 0 <= i < found.len() {
        found[i]
    } else {
        None
    }
}

/// Inspect every task, from what was found under each name, in order. Without the folder nothing
/// is found.
pub fn health(found: &Vec<Option<TaskProbe>>) -> (r: Vec<TaskHealth>)
    ensures
        r@.len() == registered().len(),
        forall|i: int|
            0 <= i < r@.len() ==> (#[trigger] r@[i])@ == health_of(
                registered()[i].name,
                found_at(found@, i),
            ),
{
    let tasks = all_tasks();
    let mut out: Vec<TaskHealth> = Vec::new();
    let mut i: usize = 0;
    while i < tasks.len()
        invariant
            i <= tasks.len(),
            tasks@.map_values(|t: TaskSpec| t@) == registered(),
            out@.len() == i,
            forall|k: int|
                0 <= k < i ==> (#[trigger] out@[k])@ == health_of(
                    registered()[k].name,
                    found_at(found@, k),
                ),
        decreases tasks.len() - i,
    {
        proof {
            let views = tasks@.map_values(|t: TaskSpec| t@);
            assert(views[i as int] == tasks@[i as int]@);
        }
        if i < found.len() {
            out.push(inspect(tasks[i].name, &found[i]));
        } else {
            out.push(inspect(tasks[i].name, &None));
        }
        i = i + 1;
    }
    proof {
        let views = tasks@.map_values(|t: TaskSpec| t@);
        assert(views.len() == tasks@.len());
    }
    out
}

/// Why Task Scheduler could not do what was asked; the texts are its own explanations.
#[derive(Debug)]
pub enum TaskError {
    Service(String),
    Connection(String),
    Root(String),
    Folder(String),
    Registering { name: String, error: String },
    NotInstalled,
    Missing { name: String },
    Starting { name: String, error: String },
    Panicked,
}

impl TaskError {
    /// One sentence.
    pub open spec fn words(self) -> Seq<char> {
        match self {
            TaskError::Service(e) => "cannot create the Task Scheduler service: "@ + e@,
            TaskError::Connection(e) => "cannot connect to the Task Scheduler: "@ + e@,
            TaskError::Root(e) => "cannot open the root task folder: "@ + e@,
            TaskError::Folder(e) => "cannot create the LinkSwitch task folder: "@ + e@,
            TaskError::Registering { name, error } => "cannot register task "@ + name@ + ": "@
                + error@,
            TaskError::NotInstalled => "LinkSwitch is not installed yet."@,
            TaskError::Missing { name } => "the "@ + name@
                + " task is missing; reinstall LinkSwitch."@,
            TaskError::Starting { name, error } => "cannot start the "@ + name@ + " task: "@
                + error@,
            TaskError::Panicked => "the Task Scheduler thread panicked"@,
        }
    }

    pub fn describe(&self) -> (r: String)
        ensures
            r@ == self.words(),
    {
        let mut r = String::new();
        match self {
            TaskError::Service(e) => {
                r.append("cannot create the Task Scheduler service: ");
                r.append(e.as_str());
            },
            TaskError::Connection(e) => {
                r.append("cannot connect to the Task Scheduler: ");
                r.append(e.as_str());
            },
            TaskError::Root(e) => {
                r.append("cannot open the root task folder: ");
                r.append(e.as_str());
            },
            TaskError::Folder(e) => {
                r.append("cannot create the LinkSwitch task folder: ");
                r.append(e.as_str());
            },
            TaskError::Registering { name, error } => {
                r.append("cannot register task ");
                r.append(name.as_str());
                r.append(": ");
                r.append(error.as_str());
            },
            TaskError::NotInstalled => {
                r.append("LinkSwitch is not installed yet.");
            },
            TaskError::Missing { name } => {
                r.append("the ");
                r.append(name.as_str());
                r.append(" task is missing; reinstall LinkSwitch.");
            },
            TaskError::Starting { name, error } => {
                r.append("cannot start the ");
                r.append(name.as_str());
                r.append(" task: ");
                r.append(error.as_str());
            },
            TaskError::Panicked => {
                r.append("the Task Scheduler thread panicked");
            },
        }
        assert(r@ =~= self.words());
        r
    }
}

/// What came of starting a task.
#[derive(Debug)]
pub enum Start {
    /// There is no folder of LinkSwitch's.
    NoFolder,
    /// There is a folder, but not the task.
    NoTask,
    Tried(Result<(), String>),
}

/// Start the task for a mode: what the attempt means.
pub fn run(mode: Mode, start: Start) -> (r: Result<(), TaskError>)
    ensures
        match start {
            Start::NoFolder => r matches Err(TaskError::NotInstalled),
            Start::NoTask => r matches Err(TaskError::Missing { name }) && name@ == mode.task(),
            Start::Tried(Ok(_)) => r is Ok,
            Start::Tried(Err(e)) => r matches Err(TaskError::Starting { name, error }) && name@
                == mode.task() && error == e,
        },
{
    match start {
        Start::NoFolder => Err(TaskError::NotInstalled),
        Start::NoTask => Err(TaskError::Missing { name: mode.task_name().to_owned() }),
        Start::Tried(Ok(_)) => Ok(()),
        Start::Tried(Err(error)) => Err(
            TaskError::Starting { name: mode.task_name().to_owned(), error },
        ),
    }
}

} // verus!
