//! Network interfaces: which one a scan uses, and which of its addresses a
//! probe is sent from.

use vstd::prelude::*;
use crate::address::IpAddress;
use crate::error::ConfigError;
use crate::search::{first_index, lemma_first_index, lemma_first_index_is, lemma_first_index_none};

verus! {

/// What a scan reads of a network interface.
#[derive(Debug)]
pub struct Interface {
    /// The name the system gives it.
    pub name: String,
    /// The addresses bound to it, in the order the system lists them.
    pub ips: Vec<IpAddress>,
    /// Whether it is up.
    pub up: bool,
    /// Whether it is a loopback interface.
    pub loopback: bool,
}

impl Interface {
    /// An interface a scan can go out on: up, no loopback, with at least
    /// one address.
    pub open spec fn usable(self) -> bool {
        self.up && !self.loopback && self.ips@.len() > 0
    }

    /// Whether a scan can go out on this interface.
    pub fn is_usable(&self) -> (yes: bool)
        ensures
            yes == self.usable(),
    {
        self.up && !self.loopback && self.ips.len() > 0
    }
}

/// Whether `address` is of the family asked for.
pub open spec fn of_family(is_v4: bool) -> spec_fn(IpAddress) -> bool {
    |address: IpAddress| (address is V4) == is_v4
}

/// The address a probe is sent from: the first address of `ips` that is of
/// the family asked for.
pub open spec fn source_address(ips: Seq<IpAddress>, is_v4: bool) -> Option<IpAddress> {
    match first_index(ips, of_family(is_v4)) {
        Some(found) => Some(ips[found]),
        None => None,
    }
}

/// The source address is the first address of the family asked for: it is
/// of that family, and no address before it in the list is. There is none
/// only where the list holds no address of that family.
pub proof fn lemma_source_address(ips: Seq<IpAddress>, is_v4: bool)
    ensures
        match source_address(ips, is_v4) {
            Some(address) => {
                &&& (address is V4) == is_v4
                &&& exists|found: int|
                    {
                        &&& 0 <= found < ips.len()
                        &&& #[trigger] ips[found] == address
                        &&& forall|j: int| 0 <= j < found ==> (#[trigger] ips[j] is V4) != is_v4
                    }
            },
            None => forall|j: int| 0 <= j < ips.len() ==> (#[trigger] ips[j] is V4) != is_v4,
        },
{
    lemma_first_index(ips, of_family(is_v4));
}

/// Resolves the source address of a probe: the first address of the
/// interface that is IPv4, where `is_v4` holds, or IPv6, where it does not.
///
/// Fails with `ConfigError::NoSourceAddress` exactly when the interface has
/// no address of that family.
pub fn get_source_ip(interface: &Interface, is_v4: bool) -> (result: Result<IpAddress, ConfigError>)
    ensures
        match result {
            Ok(address) => source_address(interface.ips@, is_v4) == Some(address) && (address
                is V4) == is_v4,
            Err(e) => e == ConfigError::NoSourceAddress && source_address(interface.ips@, is_v4)
                is None,
        },
{
    let mut index: usize = 0;
    while index < interface.ips.len()
        invariant
            index <= interface.ips@.len(),
            forall|j: int| 0 <= j < index ==> !of_family(is_v4)(#[trigger] interface.ips@[j]),
        decreases interface.ips.len() - index,
    {
        let address = interface.ips[index];
        if address.is_ipv4() == is_v4 {
            proof {
                lemma_first_index_is(interface.ips@, of_family(is_v4), index as int);
            }
            return Ok(address);
        }
        index = index + 1;
    }
    proof {
        lemma_first_index_none(interface.ips@, of_family(is_v4));
    }
    Err(ConfigError::NoSourceAddress)
}

/// Whether an interface carries the name `name`.
pub open spec fn named(name: Seq<char>) -> spec_fn(Interface) -> bool {
    |interface: Interface| interface.name@ == name
}

/// Whether a scan can go out on an interface.
pub open spec fn usable() -> spec_fn(Interface) -> bool {
    |interface: Interface| interface.usable()
}

/// The index of the interface a scan uses: the first one with the name
/// asked for, or, where none was asked for, the first usable one.
pub open spec fn selected_interface(all: Seq<Interface>, name: Option<String>) -> Option<int> {
    match name {
        Some(name) => first_index(all, named(name@)),
        None => first_index(all, usable()),
    }
}

/// The interface selected by name is the first that carries the name, and
/// none is selected only where no interface carries it. The interface
/// selected without a name is the first that is up, no loopback and has an
/// address: every interface before it fails one of the three; and none is
/// selected only where every interface fails one of them.
pub proof fn lemma_selected_interface(all: Seq<Interface>, name: Option<String>)
    ensures
        match (name, selected_interface(all, name)) {
            (Some(name), Some(found)) => {
                &&& 0 <= found < all.len()
                &&& all[found].name@ == name@
                &&& forall|j: int| 0 <= j < found ==> (#[trigger] all[j]).name@ != name@
            },
            (Some(name), None) => forall|j: int|
                0 <= j < all.len() ==> (#[trigger] all[j]).name@ != name@,
            (None, Some(found)) => {
                &&& 0 <= found < all.len()
                &&& all[found].up && !all[found].loopback && all[found].ips@.len() > 0
                &&& forall|j: int| 0 <= j < found ==> !(#[trigger] all[j]).usable()
            },
            (None, None) => forall|j: int| 0 <= j < all.len() ==> !(#[trigger] all[j]).usable(),
        },
{
    match name {
        Some(name) => lemma_first_index(all, named(name@)),
        None => lemma_first_index(all, usable()),
    }
}

/// Selects the interface of a scan among `all_interfaces`.
///
/// With a name, returns the first interface that carries it, and fails with
/// `ConfigError::InterfaceNotFound` exactly when none does. Without a name,
/// returns the first interface that is up, no loopback, and has an address,
/// and fails with `ConfigError::NoUsableInterface` exactly when there is
/// none.
pub fn get_interface<'a>(all_interfaces: &'a Vec<Interface>, interface_name: Option<String>) -> (result:
    Result<&'a Interface, ConfigError>)
    ensures
        match result {
            Ok(interface) => selected_interface(all_interfaces@, interface_name) matches Some(found)
                && *interface == all_interfaces@[found],
            Err(e) => selected_interface(all_interfaces@, interface_name) is None && e == (
            match interface_name {
                Some(_) => ConfigError::InterfaceNotFound,
                None => ConfigError::NoUsableInterface,
            }),
        },
{
    match &interface_name {
        Some(name) => {
            let mut index: usize = 0;
            while index < all_interfaces.len()
                invariant
                    index <= all_interfaces@.len(),
                    interface_name == Some(*name),
                    forall|j: int|
                        0 <= j < index ==> !named(name@)(#[trigger] all_interfaces@[j]),
                decreases all_interfaces.len() - index,
            {
                if all_interfaces[index].name == *name {
                    proof {
                        lemma_first_index_is(all_interfaces@, named(name@), index as int);
                    }
                    return Ok(&all_interfaces[index]);
                }
                index = index + 1;
            }
            proof {
                lemma_first_index_none(all_interfaces@, named(name@));
            }
            Err(ConfigError::InterfaceNotFound)
        },
        None => {
            let mut index: usize = 0;
            while index < all_interfaces.len()
                invariant
                    index <= all_interfaces@.len(),
                    interface_name is None,
                    forall|j: int| 0 <= j < index ==> !usable()(#[trigger] all_interfaces@[j]),
                decreases all_interfaces.len() - index,
            {
                if all_interfaces[index].is_usable() {
                    proof {
                        lemma_first_index_is(all_interfaces@, usable(), index as int);
                    }
                    return Ok(&all_interfaces[index]);
                }
                index = index + 1;
            }
            proof {
                lemma_first_index_none(all_interfaces@, usable());
            }
            Err(ConfigError::NoUsableInterface)
        },
    }
}

} // verus!
