//! Reading, pinning and restoring an interface's routing metric.
//!
//! Windows picks an outbound interface by longest-prefix match first and then by the lowest total
//! metric, the sum of the route metric and the interface metric. Raising Ethernet's interface
//! metric above Wi-Fi's therefore moves new connections onto Wi-Fi while Ethernet stays enabled,
//! link-up, addressed and reachable on its own subnet.
use vstd::prelude::*;
use vstd::string::*;

use super::err;
use super::luid::LuidKey;
use crate::text;

verus! {

/// The address family of IPv4.
pub const AF_INET: u16 = 2;

/// The address family of IPv6.
pub const AF_INET6: u16 = 23;

/// What a single address family's write did.
#[derive(Debug, Clone, Copy, PartialEq, Eq, Structural)]
pub enum FamilyOutcome {
    /// The metric was written (or already held the requested value).
    Applied { before: u32, before_auto: bool, after: u32, after_auto: bool },
    /// This address family is not bound to this adapter.
    ///
    /// This is success, not failure: where IPv6 is unbound there is nothing to do for it, and
    /// treating that as an error would discard a perfectly good IPv4 write.
    FamilyAbsent,
    /// The adapter itself is gone (unplugged, disabled, driver replaced).
    AdapterGone,
    /// Any other Win32 error code.
    Failed(u32),
}

/// A metric in words.
pub open spec fn metric_words(m: u32, auto: bool) -> Seq<char> {
    if auto {
        "automatic ("@ + text::dec(m as nat) + ")"@
    } else {
        "manual "@ + text::dec(m as nat)
    }
}

fn fmt_metric(m: u32, auto: bool) -> (r: String)
    ensures
        r@ == metric_words(m, auto),
{
    if auto {
        let mut r = "automatic (".to_owned();
        text::push_dec(&mut r, m as u64);
        r.append(")");
        r
    } else {
        let mut r = "manual ".to_owned();
        text::push_dec(&mut r, m as u64);
        r
    }
}

impl FamilyOutcome {
    pub open spec fn ok(self) -> bool {
        self is Applied || self is FamilyAbsent
    }

    /// The outcome in words.
    pub open spec fn words(self) -> Seq<char> {
        match self {
            FamilyOutcome::Applied { before, before_auto, after, after_auto } => metric_words(
                before,
                before_auto,
            ) + " -> "@ + metric_words(after, after_auto),
            FamilyOutcome::FamilyAbsent => "not bound on this adapter"@,
            FamilyOutcome::AdapterGone => "adapter no longer present"@,
            FamilyOutcome::Failed(rc) => err::described(rc),
        }
    }

    pub fn is_ok(self) -> (r: bool)
        ensures
            r == self.ok(),
    {
        match self {
            FamilyOutcome::Applied { .. } => true,
            FamilyOutcome::FamilyAbsent => true,
            _ => false,
        }
    }

    /// True only when something was actually written.
    pub fn changed(self) -> (r: bool)
        ensures
            r == match self {
                FamilyOutcome::Applied { before, before_auto, after, after_auto } => before != after
                    || before_auto != after_auto,
                _ => false,
            },
    {
        match self {
            FamilyOutcome::Applied { before, before_auto, after, after_auto } => before != after
                || before_auto != after_auto,
            _ => false,
        }
    }

    pub fn describe(self) -> (r: String)
        ensures
            r@ == self.words(),
    {
        match self {
            FamilyOutcome::Applied { before, before_auto, after, after_auto } => {
                let mut r = fmt_metric(before, before_auto);
                r.append(" -> ");
                r.append(fmt_metric(after, after_auto).as_str());
                r
            },
            FamilyOutcome::FamilyAbsent => "not bound on this adapter".to_owned(),
            FamilyOutcome::AdapterGone => "adapter no longer present".to_owned(),
            FamilyOutcome::Failed(rc) => err::describe(rc),
        }
    }
}

/// A metric reading for one (interface, family) pair.
#[derive(Debug, Clone, Copy, PartialEq, Eq, Structural)]
pub struct MetricState {
    pub metric: u32,
    pub automatic: bool,
    /// The stack has been told to ignore this interface's default routes, so that its metric has
    /// no effect on where traffic goes.
    pub default_routes_disabled: bool,
}

/// The fields of an interface's row that are read or written here, for one address family.
#[derive(Debug, Clone, Copy, PartialEq, Eq, Structural)]
pub struct InterfaceRow {
    pub luid: LuidKey,
    pub family: u16,
    pub metric: u32,
    pub automatic: bool,
    pub site_prefix_length: u32,
    pub default_routes_disabled: bool,
}

/// The row that asks for one (interface, family) pair: fresh and zeroed but for its address, so
/// that nothing is carried over from one family to the next.
pub fn row_for(luid: LuidKey, family: u16) -> (r: InterfaceRow)
    ensures
        r == (InterfaceRow {
            luid,
            family,
            metric: 0,
            automatic: false,
            site_prefix_length: 0,
            default_routes_disabled: false,
        }),
{
    InterfaceRow {
        luid,
        family,
        metric: 0,
        automatic: false,
        site_prefix_length: 0,
        default_routes_disabled: false,
    }
}

/// The current metric for one (interface, family) pair, from what Windows answered.
pub fn read(got: Result<InterfaceRow, u32>) -> (r: Result<MetricState, u32>)
    ensures
        match got {
            Ok(row) => r == Ok::<MetricState, u32>(
                MetricState {
                    metric: row.metric,
                    automatic: row.automatic,
                    default_routes_disabled: row.default_routes_disabled,
                },
            ),
            Err(rc) => r == Err::<MetricState, u32>(rc),
        },
{
    match got {
        Ok(row) => Ok(
            MetricState {
                metric: row.metric,
                automatic: row.automatic,
                default_routes_disabled: row.default_routes_disabled,
            },
        ),
        Err(rc) => Err(rc),
    }
}

/// How a metric write goes on once the current row is known.
#[derive(Debug, Clone, Copy, PartialEq, Eq, Structural)]
pub enum SetStep {
    /// Hand this row back to Windows, then ask [`written`] what came of it.
    Write(InterfaceRow),
    /// There is nothing to write.
    Done(FamilyOutcome),
}

/// What an error code on reading the row means for the write.
pub open spec fn unreadable(rc: u32) -> FamilyOutcome {
    if rc == err::ERROR_NOT_FOUND {
        FamilyOutcome::FamilyAbsent
    } else if rc == err::ERROR_FILE_NOT_FOUND {
        FamilyOutcome::AdapterGone
    } else {
        FamilyOutcome::Failed(rc)
    }
}

/// The row that pins a manual metric, or hands the interface back to the automatic one.
///
/// The metric is ignored unless the automatic flag is off, and automatic cannot be restored by
/// writing back a remembered number: under automatic, Windows reports a value it computed, and
/// writing that back would pin it. For IPv4 the site prefix length must be zero, although reading
/// the row gives 64; for IPv6 it goes back as it came.
pub open spec fn retargeted(row: InterfaceRow, target: Option<u32>) -> InterfaceRow {
    InterfaceRow {
        automatic: target is None,
        metric: match target {
            Some(m) => m,
            None => 0,
        },
        site_prefix_length: if row.family == AF_INET {
            0
        } else {
            row.site_prefix_length
        },
        ..row
    }
}

/// Pin a manual metric (`Some`) or hand the interface back to Windows' automatic metric (`None`):
/// what to do with the row that Windows gave for the interface.
pub fn set(got: Result<InterfaceRow, u32>, target: Option<u32>) -> (r: SetStep)
    ensures
        match got {
            Ok(row) => r == SetStep::Write(retargeted(row, target)),
            Err(rc) => r == SetStep::Done(unreadable(rc)),
        },
{
    match got {
        Err(rc) => {
            if err::is_family_absent(rc) {
                return SetStep::Done(FamilyOutcome::FamilyAbsent);
            }
            if err::is_adapter_gone(rc) {
                return SetStep::Done(FamilyOutcome::AdapterGone);
            }
            SetStep::Done(FamilyOutcome::Failed(rc))
        },
        Ok(row) => {
            let mut next = row;
            match target {
                Some(m) => {
                    next.automatic = false;
                    next.metric = m;
                },
                None => {
                    next.automatic = true;
                    next.metric = 0;
                },
            }
            if next.family == AF_INET {
                next.site_prefix_length = 0;
            }
            SetStep::Write(next)
        },
    }
}

/// What a write that returned `rc` did, given the row as it was before.
pub open spec fn write_outcome(before: InterfaceRow, target: Option<u32>, rc: u32) -> FamilyOutcome {
    if rc == err::NO_ERROR {
        FamilyOutcome::Applied {
            before: before.metric,
            before_auto: before.automatic,
            after: match target {
                Some(m) => m,
                None => 0,
            },
            after_auto: target is None,
        }
    } else if rc == err::ERROR_FILE_NOT_FOUND {
        FamilyOutcome::AdapterGone
    } else {
        FamilyOutcome::Failed(rc)
    }
}

/// What came of handing the row back to Windows.
pub fn written(before: InterfaceRow, target: Option<u32>, rc: u32) -> (r: FamilyOutcome)
    ensures
        r == write_outcome(before, target, rc),
{
    if rc == err::NO_ERROR {
        let (after, after_auto): (u32, bool) = match target {
            Some(m) => (m, false),
            None => (0, true),
        };
        FamilyOutcome::Applied {
            before: before.metric,
            before_auto: before.automatic,
            after,
            after_auto,
        }
    } else if err::is_adapter_gone(rc) {
        FamilyOutcome::AdapterGone
    } else {
        FamilyOutcome::Failed(rc)
    }
}

/// The result of steering one interface across both address families.
#[derive(Debug, Clone, Copy, PartialEq, Eq, Structural)]
pub struct SteerOutcome {
    pub v4: FamilyOutcome,
    pub v6: FamilyOutcome,
}

impl SteerOutcome {
    pub open spec fn ok(self) -> bool {
        self.v4.ok() && self.v6.ok()
    }

    pub open spec fn words(self) -> Seq<char> {
        "IPv4: "@ + self.v4.words() + " | IPv6: "@ + self.v6.words()
    }

    /// Both families must be OK.
    ///
    /// IPv6 being absent counts as OK, but IPv6 being present and failing does not: Windows
    /// prefers IPv6, so a silently failed IPv6 leg would leave traffic on the old adapter.
    pub fn is_ok(&self) -> (r: bool)
        ensures
            r == self.ok(),
    {
        self.v4.is_ok() && self.v6.is_ok()
    }

    pub fn changed(&self) -> (r: bool)
        ensures
            r == (self.v4 matches FamilyOutcome::Applied {
                before,
                before_auto,
                after,
                after_auto,
            } && (before != after || before_auto != after_auto)) || (
            self.v6 matches FamilyOutcome::Applied { before, before_auto, after, after_auto } && (
            before != after || before_auto != after_auto)),
    {
        self.v4.changed() || self.v6.changed()
    }

    pub fn describe(&self) -> (r: String)
        ensures
            r@ == self.words(),
    {
        let mut r = "IPv4: ".to_owned();
        r.append(self.v4.describe().as_str());
        r.append(" | IPv6: ");
        r.append(self.v6.describe().as_str());
        r
    }
}

/// One metric to write: pinned to a number, or handed back to automatic.
#[derive(Debug, Clone, Copy, PartialEq, Eq, Structural)]
pub struct MetricWrite {
    pub luid: LuidKey,
    pub family: u16,
    pub target: Option<u32>,
}

/// The two writes that steer one interface: IPv4, then IPv6.
pub open spec fn steering(luid: LuidKey, target: Option<u32>) -> Seq<MetricWrite> {
    seq![
        MetricWrite { luid, family: AF_INET, target },
        MetricWrite { luid, family: AF_INET6, target },
    ]
}

/// Steer both address families of one interface: the writes it takes.
pub fn steer(luid: LuidKey, target: Option<u32>) -> (r: Vec<MetricWrite>)
    ensures
        r@ == steering(luid, target),
{
    let mut r: Vec<MetricWrite> = Vec::new();
    r.push(MetricWrite { luid, family: AF_INET, target });
    r.push(MetricWrite { luid, family: AF_INET6, target });
    assert(r@ =~= steering(luid, target));
    r
}

/// One row of the bulk interface-metric snapshot.
#[derive(Debug, Clone, Copy, PartialEq, Eq, Structural)]
pub struct IfaceMetric {
    pub luid: LuidKey,
    pub if_index: u32,
    pub family: u16,
    pub metric: u32,
    pub automatic: bool,
    pub connected: bool,
    pub default_routes_disabled: bool,
}

/// The first row of a snapshot for one (interface, family) pair.
pub open spec fn first_metric(snap: Seq<IfaceMetric>, luid: LuidKey, family: u16) -> Option<
    IfaceMetric,
>
    decreases snap.len(),
{
    if snap.len() == 0 {
        None
    } else if snap[0].luid == luid && snap[0].family == family {
        Some(snap[0])
    } else {
        first_metric(snap.skip(1), luid, family)
    }
}

/// Look up one interface's metric in a snapshot.
pub fn find(snap: &[IfaceMetric], luid: LuidKey, family: u16) -> (r: Option<IfaceMetric>)
    ensures
        r == first_metric(snap@, luid, family),
{
    let mut i: usize = 0;
    assert(snap@.skip(0) =~= snap@);
    while i < snap.len()
        invariant
            i <= snap@.len(),
            first_metric(snap@, luid, family) == first_metric(snap@.skip(i as int), luid, family),
        decreases snap@.len() - i,
    {
        if snap[i].luid == luid && snap[i].family == family {
            return Some(snap[i]);
        }
        assert(snap@.skip(i as int).skip(1) =~= snap@.skip(i + 1));
        i = i + 1;
    }
    None
}

/// The least metric LinkSwitch is willing to write, whatever the configuration file says.
pub const PARK_MIN: u32 = 100;

/// The greatest metric LinkSwitch is willing to write.
pub const PARK_MAX: u32 = 9999;

/// Default "park" metric: high enough to lose to any automatic metric Windows assigns.
pub const PARK_DEFAULT: u32 = 9000;

/// `x`, moved into the range of metrics that may be written.
pub open spec fn in_range(x: int) -> int {
    if x < PARK_MIN {
        PARK_MIN as int
    } else if x > PARK_MAX {
        PARK_MAX as int
    } else {
        x
    }
}

/// The metric to park an interface at: the configured one, unless the rival's total plus a margin
/// of a hundred is higher; never outside the range.
pub open spec fn parking(configured: u32, rival_total: Option<u32>) -> int {
    let base = in_range(configured as int);
    match rival_total {
        Some(rival) => if in_range(rival + 100) > base {
            in_range(rival + 100)
        } else {
            base
        },
        None => base,
    }
}

fn clamp(x: u32) -> (r: u32)
    ensures
        r == in_range(x as int),
{
    if x < PARK_MIN {
        PARK_MIN
    } else if x > PARK_MAX {
        PARK_MAX
    } else {
        x
    }
}

/// Choose a park metric that loses against `rival_total`.
///
/// The default is usually right, but a persistent route with an explicit metric offset can lift
/// the rival's total above a naive guess. The margin keeps a small drift of an automatic metric
/// from flipping the choice back.
pub fn park_value(configured: u32, rival_total: Option<u32>) -> (r: u32)
    ensures
        r == parking(configured, rival_total),
{
    let base: u32 = clamp(configured);
    match rival_total {
        Some(rival) => {
            let over: u32 = rival.saturating_add(100);
            if base <= over {
                clamp(over)
            } else {
                base
            }
        },
        None => base,
    }
}

/// Whatever the configuration says, what is written is inside the range.
pub proof fn park_is_in_range(configured: u32, rival_total: Option<u32>)
    ensures
        PARK_MIN <= parking(configured, rival_total) <= PARK_MAX,
{
}

/// A parked interface loses against the rival, by a margin of a hundred where the range leaves
/// room for it. A rival at or above the top of the range cannot be undercut.
pub proof fn park_loses_against_rival(configured: u32, rival: u32)
    requires
        rival < PARK_MAX,
    ensures
        parking(configured, Some(rival)) > rival,
        rival + 100 <= PARK_MAX ==> parking(configured, Some(rival)) >= rival + 100,
{
}

/// A write that pins a metric and the write that restores what was read before leave the row's
/// metric and automatic flag as they were, except that a metric under automatic is Windows' own to
/// compute.
pub proof fn restoring_write_undoes_pinning(row: InterfaceRow, target: Option<u32>)
    ensures
        ({
            let back = if row.automatic {
                None
            } else {
                Some(row.metric)
            };
            let restored = retargeted(retargeted(row, target), back);
            &&& restored.automatic == row.automatic
            &&& !row.automatic ==> restored.metric == row.metric
            &&& restored.luid == row.luid && restored.family == row.family
            &&& restored.default_routes_disabled == row.default_routes_disabled
        }),
{
}

} // verus!
