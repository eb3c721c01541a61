//! The Windows Connection Manager "minimize simultaneous connections" policy.
//!
//! It refuses to let Wi-Fi connect by itself while a preferred network type is up. An absent
//! registry value means the policy is enabled, not disabled: reading "no value" as "not
//! configured" is the single easiest way to get this wrong.
use vstd::prelude::*;
use vstd::string::*;

use super::err;
use crate::config::WcmBackup;
use crate::text;

verus! {

/// The documented values of the policy.
#[derive(Debug, Clone, Copy, PartialEq, Eq, Structural)]
pub enum MinimizePolicy {
    /// 0 -- Windows may keep several connections up at once. What LinkSwitch wants.
    Allow,
    /// 1 -- the Windows default. Blocks new automatic connections when a preferred network is
    /// already up, and soft-disconnects idle ones.
    Minimize,
    /// 2 -- minimise cellular only.
    MinimizeCellular,
    /// 3 -- prevent Wi-Fi entirely while Ethernet is connected: even a manual connection is
    /// refused.
    PreventWifi,
    /// A value outside the documented set.
    Unknown(u32),
}

impl MinimizePolicy {
    pub open spec fn of(v: u32) -> MinimizePolicy {
        if v == 0 {
            MinimizePolicy::Allow
        } else if v == 1 {
            MinimizePolicy::Minimize
        } else if v == 2 {
            MinimizePolicy::MinimizeCellular
        } else if v == 3 {
            MinimizePolicy::PreventWifi
        } else {
            MinimizePolicy::Unknown(v)
        }
    }

    pub open spec fn words(self) -> Seq<char> {
        match self {
            MinimizePolicy::Allow => "Windows may keep Wi-Fi connected alongside Ethernet"@,
            MinimizePolicy::Minimize =>
                "Windows blocks Wi-Fi from auto-connecting while Ethernet is up (Windows default)"@,
            MinimizePolicy::MinimizeCellular => "Windows minimises cellular connections only"@,
            MinimizePolicy::PreventWifi =>
                "Group Policy prevents Wi-Fi entirely while Ethernet is connected"@,
            MinimizePolicy::Unknown(_) => "unrecognised policy value"@,
        }
    }

    /// The name of the policy as diagnostics spell it.
    pub open spec fn debug_words(self) -> Seq<char> {
        match self {
            MinimizePolicy::Allow => "Allow"@,
            MinimizePolicy::Minimize => "Minimize"@,
            MinimizePolicy::MinimizeCellular => "MinimizeCellular"@,
            MinimizePolicy::PreventWifi => "PreventWifi"@,
            MinimizePolicy::Unknown(v) => "Unknown("@ + text::dec(v as nat) + ")"@,
        }
    }

    pub fn from_value(v: u32) -> (r: MinimizePolicy)
        ensures
            r == MinimizePolicy::of(v),
    {
        if v == 0 {
            MinimizePolicy::Allow
        } else if v == 1 {
            MinimizePolicy::Minimize
        } else if v == 2 {
            MinimizePolicy::MinimizeCellular
        } else if v == 3 {
            MinimizePolicy::PreventWifi
        } else {
            MinimizePolicy::Unknown(v)
        }
    }

    /// Will Windows let us associate Wi-Fi manually while Ethernet is up?
    pub fn permits_manual_wifi(self) -> (r: bool)
        ensures
            r == !(self is PreventWifi),
    {
        match self {
            MinimizePolicy::PreventWifi => false,
            _ => true,
        }
    }

    /// Will Wi-Fi come back by itself after a reboot with the cable in?
    pub fn permits_auto_wifi(self) -> (r: bool)
        ensures
            r == (self is Allow || self is MinimizeCellular),
    {
        match self {
            MinimizePolicy::Allow => true,
            MinimizePolicy::MinimizeCellular => true,
            _ => false,
        }
    }

    pub fn describe(self) -> (r: &'static str)
        ensures
            r@ == self.words(),
    {
        match self {
            MinimizePolicy::Allow => "Windows may keep Wi-Fi connected alongside Ethernet",
            MinimizePolicy::Minimize =>
                "Windows blocks Wi-Fi from auto-connecting while Ethernet is up (Windows default)",
            MinimizePolicy::MinimizeCellular => "Windows minimises cellular connections only",
            MinimizePolicy::PreventWifi =>
                "Group Policy prevents Wi-Fi entirely while Ethernet is connected",
            MinimizePolicy::Unknown(_) => "unrecognised policy value",
        }
    }

    /// The name of the policy as diagnostics spell it.
    pub fn debug_text(self) -> (r: String)
        ensures
            r@ == self.debug_words(),
    {
        match self {
            MinimizePolicy::Allow => "Allow".to_owned(),
            MinimizePolicy::Minimize => "Minimize".to_owned(),
            MinimizePolicy::MinimizeCellular => "MinimizeCellular".to_owned(),
            MinimizePolicy::PreventWifi => "PreventWifi".to_owned(),
            MinimizePolicy::Unknown(v) => {
                let mut r = "Unknown(".to_owned();
                text::push_dec(&mut r, v as u64);
                r.append(")");
                r
            },
        }
    }
}

#[derive(Debug, Clone, Copy, PartialEq, Eq, Structural)]
pub struct PolicyState {
    pub policy: MinimizePolicy,
    /// Set by domain Group Policy rather than a local edit. Writing over it is pointless: the next
    /// update puts it back.
    pub is_group_policy: bool,
    /// Whether the registry value physically exists.
    pub value_present: bool,
}

/// The effective policy, from the registry value if there is one and from what the connection
/// manager answered -- whether the policy is on, and whether it is Group Policy -- if it did.
pub open spec fn effective_policy(registry: Option<u32>, manager: Option<(bool, bool)>) -> PolicyState {
    PolicyState {
        policy: match registry {
            Some(v) => MinimizePolicy::of(v),
            // Absent means enabled, unless the manager itself says that it is off.
            None => if manager is Some && !(manager->0).0 {
                MinimizePolicy::Allow
            } else {
                MinimizePolicy::Minimize
            },
        },
        is_group_policy: manager is Some && (manager->0).1,
        value_present: registry is Some,
    }
}

/// The effective policy right now.
///
/// The registry value is authoritative when it exists, because the manager's answer is a yes or no
/// and cannot represent the other values. When it is absent, the manager's answer supplies the
/// effective default.
pub fn effective(registry: Option<u32>, manager: Option<(bool, bool)>) -> (r: PolicyState)
    ensures
        r == effective_policy(registry, manager),
{
    let (on, gp) = match manager {
        Some(answer) => answer,
        None => (true, false),
    };
    match registry {
        Some(v) => PolicyState {
            policy: MinimizePolicy::from_value(v),
            is_group_policy: gp,
            value_present: true,
        },
        None => PolicyState {
            policy: if on {
                MinimizePolicy::Minimize
            } else {
                MinimizePolicy::Allow
            },
            is_group_policy: gp,
            value_present: false,
        },
    }
}

/// What a registry value was, including that it did not exist.
pub open spec fn backup_of(registry: Option<u32>) -> WcmBackup {
    match registry {
        Some(v) => WcmBackup { present: true, value: v },
        None => WcmBackup { present: false, value: 0 },
    }
}

/// Capture the current value so it can be put back exactly, including "it did not exist".
pub fn backup(registry: Option<u32>) -> (r: WcmBackup)
    ensures
        r == backup_of(registry),
{
    match registry {
        Some(v) => WcmBackup { present: true, value: v },
        None => WcmBackup { present: false, value: 0 },
    }
}

/// One change to the policy's registry value.
#[derive(Debug, Clone, Copy, PartialEq, Eq, Structural)]
pub enum RegistryChange {
    Write(u32),
    Delete,
}

/// Opt-in: let Windows keep Wi-Fi connected alongside Ethernet.
///
/// Writes 0 rather than deleting the value: deleting it restores the default of "enabled", the
/// opposite of the intent.
pub fn set_allow() -> (r: RegistryChange)
    ensures
        r == RegistryChange::Write(0),
{
    RegistryChange::Write(0)
}

/// What puts a captured value back.
pub open spec fn restoring(b: WcmBackup) -> RegistryChange {
    if b.present {
        RegistryChange::Write(b.value)
    } else {
        RegistryChange::Delete
    }
}

/// Put the policy back exactly as it was found, deleting the value if it was absent.
pub fn restore(b: WcmBackup) -> (r: RegistryChange)
    ensures
        r == restoring(b),
{
    if b.present {
        RegistryChange::Write(b.value)
    } else {
        RegistryChange::Delete
    }
}

/// Whether a change that returned `rc` succeeded. Deleting a value that is already absent is the
/// desired end state, not a failure.
pub open spec fn change_result(change: RegistryChange, rc: u32) -> Result<(), u32> {
    if rc == err::NO_ERROR || change is Delete && rc == err::ERROR_FILE_NOT_FOUND {
        Ok(())
    } else {
        Err(rc)
    }
}

pub fn changed(change: RegistryChange, rc: u32) -> (r: Result<(), u32>)
    ensures
        r == change_result(change, rc),
{
    let gone = match change {
        RegistryChange::Write(_) => false,
        RegistryChange::Delete => rc == err::ERROR_FILE_NOT_FOUND,
    };
    if rc == err::NO_ERROR || gone {
        Ok(())
    } else {
        Err(rc)
    }
}

/// The registry value after a change.
pub open spec fn registry_after(change: RegistryChange) -> Option<u32> {
    match change {
        RegistryChange::Write(v) => Some(v),
        RegistryChange::Delete => None,
    }
}

/// Restoring what was captured leaves the registry exactly as it was found, whatever was written
/// in between.
pub proof fn restore_undoes_any_change(registry: Option<u32>)
    ensures
        registry_after(restoring(backup_of(registry))) == registry,
{
}

/// With no registry value the policy is one of the two that the manager's yes or no can express,
/// and it is never read as "allow" unless the manager says that it is off.
pub proof fn an_absent_value_means_enabled(manager: Option<(bool, bool)>)
    ensures
        ({
            let p = effective_policy(None, manager).policy;
            &&& p is Allow || p is Minimize
            &&& p is Allow <==> manager is Some && !(manager->0).0
        }),
{
}

} // verus!
