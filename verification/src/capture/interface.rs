//! Choosing the interface to capture on, among those the system lists.

use vstd::prelude::*;
use vstd::string::*;
use crate::common::text::{occurs_in, str_contains, str_eq};

verus! {

/// One network interface as the system lists it.
#[derive(Debug, Clone)]
pub struct InterfaceInfo {
    /// The interface's name.
    pub name: String,
    /// Its description ("未知网卡" where the system gives none).
    pub description: String,
    /// Its addresses, as text.
    pub addresses: Vec<String>,
}

/// Why no interface could be chosen.
#[derive(Debug, Clone, PartialEq, Eq)]
pub enum InterfaceError {
    /// The interface asked for by name is not among those listed.
    Unknown(String),
    /// No listed interface may be picked automatically.
    NoneUsable,
}

/// A loopback interface name: `lo`, possibly followed by decimal digits
/// (`lo0`, `lo1`, ...).
pub open spec fn is_loopback_name(n: Seq<char>) -> bool {
    &&& n.len() >= 2
    &&& n[0] == 'l'
    &&& n[1] == 'o'
    &&& forall|i: int| 2 <= i < n.len() ==> '0' <= #[trigger] n[i] <= '9'
}

/// An interface that automatic selection may pick: it is no loopback, by
/// its name or by a description that holds "Loopback".
pub open spec fn is_usable(iface: InterfaceInfo) -> bool {
    !is_loopback_name(iface.name@) && !occurs_in(iface.description@, "Loopback"@)
}

/// Whether an interface name is a loopback name.
pub fn loopback_name(name: &str) -> (b: bool)
    ensures
        b == is_loopback_name(name@),
{
    let n = name.unicode_len();
    if n < 2 || name.get_char(0) != 'l' || name.get_char(1) != 'o' {
        return false;
    }
    let mut i: usize = 2;
    while i < n
        invariant
            n == name@.len(),
            2 <= i <= n,
            forall|k: int| 2 <= k < i ==> '0' <= #[trigger] name@[k] <= '9',
        decreases n - i,
    {
        let c = name.get_char(i);
        if c < '0' || c > '9' {
            return false;
        }
        i = i + 1;
    }
    true
}

/// Some listed interface is named `name`.
pub open spec fn is_listed(ifaces: Seq<InterfaceInfo>, name: Seq<char>) -> bool {
    exists|i: int| 0 <= i < ifaces.len() && (#[trigger] ifaces[i]).name@ == name
}

/// `k` is the position of the first usable interface of the list.
pub open spec fn is_first_usable(ifaces: Seq<InterfaceInfo>, k: int) -> bool {
    &&& 0 <= k < ifaces.len()
    &&& is_usable(ifaces[k])
    &&& forall|j: int| 0 <= j < k ==> !is_usable(#[trigger] ifaces[j])
}

/// The text shown for each error.
pub open spec fn interface_error_text(e: InterfaceError) -> Seq<char> {
    match e {
        InterfaceError::Unknown(n) => "网卡 '"@ + n@ + "' 不存在，请使用 list-interfaces 查看可用网卡"@,
        InterfaceError::NoneUsable => "未找到可用的网卡，请手动指定网卡名称"@,
    }
}

impl InterfaceError {
    /// The message shown to the user for this error.
    pub fn message(&self) -> (s: String)
        ensures
            s@ == interface_error_text(*self),
    {
        match self {
            InterfaceError::Unknown(n) => {
                let mut s = String::from_str("网卡 '");
                s.append(n.as_str());
                s.append("' 不存在，请使用 list-interfaces 查看可用网卡");
                s
            },
            InterfaceError::NoneUsable => String::from_str("未找到可用的网卡，请手动指定网卡名称"),
        }
    }
}

/// Chooses the interface to capture on from the listed `interfaces`.
///
/// With a name, that name is returned if some listed interface carries it,
/// and refused otherwise. Without one, the first interface whose name is
/// no loopback name (`lo`, `lo0`, ...) and whose description does not hold
/// "Loopback" is chosen.
pub fn select_interface(name: Option<&str>, interfaces: &Vec<InterfaceInfo>) -> (r: Result<
    String,
    InterfaceError,
>)
    ensures
        match name {
            Some(n) => if is_listed(interfaces@, n@) {
                r matches Ok(s) && s@ == n@
            } else {
                r matches Err(InterfaceError::Unknown(m)) && m@ == n@
            },
            None => match r {
                Ok(s) => exists|k: int|
                    is_first_usable(interfaces@, k) && s@ == (#[trigger] interfaces@[k]).name@,
                Err(e) => e == InterfaceError::NoneUsable && forall|i: int|
                    0 <= i < interfaces@.len() ==> !is_usable(#[trigger] interfaces@[i]),
            },
        },
{
    match name {
        Some(n) => {
            let mut i: usize = 0;
            while i < interfaces.len()
                invariant
                    name == Some(n),
                    i <= interfaces@.len(),
                    forall|j: int| 0 <= j < i ==> (#[trigger] interfaces@[j]).name@ != n@,
                decreases interfaces@.len() - i,
            {
                if str_eq(interfaces[i].name.as_str(), n) {
                    assert(interfaces@[i as int].name@ == n@);
                    return Ok(String::from_str(n));
                }
                i = i + 1;
            }
            Err(InterfaceError::Unknown(String::from_str(n)))
        },
        None => {
            let mut i: usize = 0;
            while i < interfaces.len()
                invariant
                    name is None,
                    i <= interfaces@.len(),
                    forall|j: int| 0 <= j < i ==> !is_usable(#[trigger] interfaces@[j]),
                decreases interfaces@.len() - i,
            {
                let iface = &interfaces[i];
                let has_lo = loopback_name(iface.name.as_str());
                let has_loopback = str_contains(iface.description.as_str(), "Loopback");
                if !has_lo && !has_loopback {
                    assert(is_first_usable(interfaces@, i as int));
                    return Ok(String::from_str(iface.name.as_str()));
                }
                i = i + 1;
            }
            Err(InterfaceError::NoneUsable)
        },
    }
}

} // verus!
