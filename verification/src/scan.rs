//! Planning a scan: one probe task for each pairing of a target with a
//! port, targets outer, ports inner.

use vstd::prelude::*;
use crate::address::{
    is_ephemeral_port, IpAddress, IpConfig, PortConfig, EPHEMERAL_PORT_MAX, EPHEMERAL_PORT_MIN,
};
use crate::error::ConfigError;
use crate::interface::{get_source_ip, source_address, Interface};

verus! {

/// One probe to run: its address pair and its port pair.
#[derive(Clone, Copy, Debug, PartialEq, Eq, Structural)]
pub struct ProbeTask {
    pub ip_config: IpConfig,
    pub port_config: PortConfig,
}

/// Whether `ips` holds a source address for every target.
pub open spec fn all_resolvable(targets: Seq<IpAddress>, ips: Seq<IpAddress>) -> bool {
    forall|i: int|
        0 <= i < targets.len() ==> source_address(ips, #[trigger] targets[i] is V4) is Some
}

/// The task at position `index` of a scan: target `index / ports.len()`
/// with the source address of its family, port `index % ports.len()`, sent
/// from the source port at `index`.
pub open spec fn task_at(
    targets: Seq<IpAddress>,
    ports: Seq<u16>,
    ips: Seq<IpAddress>,
    source_ports: Seq<u16>,
    index: int,
) -> ProbeTask {
    let target = targets[index / ports.len() as int];
    ProbeTask {
        ip_config: IpConfig { target, source: source_address(ips, target is V4).unwrap() },
        port_config: PortConfig {
            target: ports[index % ports.len() as int],
            source: source_ports[index],
        },
    }
}

/// The tasks of a scan in the order they are submitted.
pub open spec fn planned_tasks(
    targets: Seq<IpAddress>,
    ports: Seq<u16>,
    ips: Seq<IpAddress>,
    source_ports: Seq<u16>,
) -> Seq<ProbeTask> {
    Seq::new(
        targets.len() * ports.len(),
        |index: int| task_at(targets, ports, ips, source_ports, index),
    )
}

/// Lists the tasks of a scan that sends its probes from the given source
/// ports, one for each pairing.
///
/// Fails with `ConfigError::NoSourceAddress`, listing nothing, exactly when
/// the interface lacks an address of the family of some target.
pub fn scan_tasks(
    target_ips: &Vec<IpAddress>,
    target_ports: &Vec<u16>,
    interface: &Interface,
    source_ports: &Vec<u16>,
) -> (result: Result<Vec<ProbeTask>, ConfigError>)
    requires
        source_ports@.len() == target_ips@.len() * target_ports@.len(),
    ensures
        match result {
            Ok(tasks) => {
                &&& all_resolvable(target_ips@, interface.ips@)
                &&& tasks@ == planned_tasks(
                    target_ips@,
                    target_ports@,
                    interface.ips@,
                    source_ports@,
                )
                &&& forall|k: int|
                    0 <= k < tasks@.len() ==> (#[trigger] tasks@[k]).ip_config.well_formed()
            },
            Err(e) => !all_resolvable(target_ips@, interface.ips@) && e
                == ConfigError::NoSourceAddress,
        },
{
    let mut tasks: Vec<ProbeTask> = Vec::new();
    let port_count = target_ports.len();
    let mut i: usize = 0;
    while i < target_ips.len()
        invariant
            i <= target_ips@.len(),
            port_count == target_ports@.len(),
            source_ports@.len() == target_ips@.len() * target_ports@.len(),
            tasks@.len() == i * port_count,
            forall|k: int|
                0 <= k < i ==> source_address(interface.ips@, #[trigger] target_ips@[k] is V4)
                    is Some,
            forall|k: int|
                0 <= k < tasks@.len() ==> #[trigger] tasks@[k] == task_at(
                    target_ips@,
                    target_ports@,
                    interface.ips@,
                    source_ports@,
                    k,
                ) && tasks@[k].ip_config.well_formed(),
        decreases target_ips.len() - i,
    {
        let target = target_ips[i];
        let source = match get_source_ip(interface, target.is_ipv4()) {
            Ok(source) => source,
            Err(e) => {
                return Err(e);
            },
        };
        let mut j: usize = 0;
        while j < port_count
            invariant
                i < target_ips@.len(),
                j <= port_count,
                port_count == target_ports@.len(),
                source_ports@.len() == target_ips@.len() * target_ports@.len(),
                tasks@.len() == i * port_count + j,
                target == target_ips@[i as int],
                source_address(interface.ips@, target is V4) == Some(source),
                (source is V4) == (target is V4),
                forall|k: int|
                    0 <= k < tasks@.len() ==> #[trigger] tasks@[k] == task_at(
                        target_ips@,
                        target_ports@,
                        interface.ips@,
                        source_ports@,
                        k,
                    ) && tasks@[k].ip_config.well_formed(),
            decreases port_count - j,
        {
            let position = tasks.len();
            proof {
                lemma_pairing_index(
                    i as int,
                    j as int,
                    target_ips@.len() as int,
                    port_count as int,
                );
            }
            tasks.push(
                ProbeTask {
                    ip_config: IpConfig { target, source },
                    port_config: PortConfig {
                        target: target_ports[j],
                        source: source_ports[position],
                    },
                },
            );
            j = j + 1;
        }
        assert(i * port_count + port_count == (i + 1) * port_count) by (nonlinear_arith);
        i = i + 1;
    }
    Ok(tasks)
}

/// The pairing of target `i` with port `j` stands at position
/// `i * ports + j`, which lies within the `targets * ports` pairings.
proof fn lemma_pairing_index(i: int, j: int, targets: int, ports: int)
    requires
        0 <= i < targets,
        0 <= j < ports,
    ensures
        0 <= i * ports + j < targets * ports,
        (i * ports + j) / ports == i,
        (i * ports + j) % ports == j,
{
    assert(0 <= i * ports && (i + 1) * ports <= targets * ports && (i + 1) * ports == i * ports
        + ports) by (nonlinear_arith)
        requires
            0 <= i < targets,
            0 < ports,
    ;
    vstd::arithmetic::div_mod::lemma_fundamental_div_mod_converse(i * ports + j, ports, i, j);
}

/// Calls `gen_range` of `rand::Rng` on the generator that `rand::thread_rng`
/// returns, with the half-open range from `low` to `high`. The contract
/// claims only that the number drawn lies in that range; an empty range,
/// on which `gen_range` panics, is left out.
#[verifier::external_body]
fn random_in_range(low: u16, high: u16) -> (drawn: u16)
    requires
        low < high,
    ensures
        low <= drawn < high,
{
    rand::Rng::gen_range(&mut rand::thread_rng(), low..high)
}

/// Draws a fresh source port for a probe.
pub fn fresh_source_port() -> (port: u16)
    ensures
        is_ephemeral_port(port),
{
    random_in_range(EPHEMERAL_PORT_MIN, EPHEMERAL_PORT_MAX + 1)
}

/// Lists the tasks of a scan of every target on every port, each probe sent
/// from a freshly drawn source port. The order is that of submission:
/// targets outer, ports inner.
///
/// Fails with `ConfigError::NoSourceAddress`, listing nothing, exactly when
/// the interface lacks an address of the family of some target.
pub fn run_syn_scan(target_ips: Vec<IpAddress>, target_ports: Vec<u16>, interface: &Interface) -> (result:
    Result<Vec<ProbeTask>, ConfigError>)
    ensures
        match result {
            Ok(tasks) => {
                &&& all_resolvable(target_ips@, interface.ips@)
                &&& tasks@ == planned_tasks(
                    target_ips@,
                    target_ports@,
                    interface.ips@,
                    tasks@.map_values(|task: ProbeTask| task.port_config.source),
                )
                &&& forall|k: int|
                    0 <= k < tasks@.len() ==> (#[trigger] tasks@[k]).ip_config.well_formed()
                        && tasks@[k].port_config.well_formed()
            },
            Err(e) => !all_resolvable(target_ips@, interface.ips@) && e
                == ConfigError::NoSourceAddress,
        },
{
    let mut source_ports: Vec<u16> = Vec::new();
    let mut i: usize = 0;
    while i < target_ips.len()
        invariant
            i <= target_ips@.len(),
            source_ports@.len() == i * target_ports@.len(),
            forall|k: int| 0 <= k < source_ports@.len() ==> is_ephemeral_port(#[trigger] source_ports@[k]),
        decreases target_ips.len() - i,
    {
        let mut j: usize = 0;
        while j < target_ports.len()
            invariant
                j <= target_ports@.len(),
                source_ports@.len() == i * target_ports@.len() + j,
                forall|k: int|
                    0 <= k < source_ports@.len() ==> is_ephemeral_port(#[trigger] source_ports@[k]),
            decreases target_ports.len() - j,
        {
            source_ports.push(fresh_source_port());
            j = j + 1;
        }
        assert(i * target_ports@.len() + target_ports@.len() == (i + 1) * target_ports@.len())
            by (nonlinear_arith);
        i = i + 1;
    }
    match scan_tasks(&target_ips, &target_ports, interface, &source_ports) {
        Ok(tasks) => {
            Ok(tasks)
        },
        Err(e) => Err(e),
    }
}

/// What a scan is asked to do.
#[derive(Debug)]
pub struct Args {
    /// The addresses to probe.
    pub targets: Vec<IpAddress>,
    /// The ports to probe, one list for each entry that was given.
    pub ports: Vec<Vec<u16>>,
    /// The name of the interface to go out on, if one was asked for.
    pub interface: Option<String>,
}

impl Args {
    /// Lists the ports to probe: the entries one after the other, each in
    /// its own order.
    pub fn target_ports(&self) -> (all: Vec<u16>)
        ensures
            all@ == self.ports.deep_view().flatten(),
    {
        let mut all: Vec<u16> = Vec::new();
        let ghost lists = self.ports.deep_view();
        let mut i: usize = 0;
        while i < self.ports.len()
            invariant
                i <= self.ports@.len(),
                lists == self.ports.deep_view(),
                all@ == lists.take(i as int).flatten_alt(),
            decreases self.ports.len() - i,
        {
            let list = &self.ports[i];
            let ghost before = all@;
            let mut j: usize = 0;
            while j < list.len()
                invariant
                    j <= list@.len(),
                    all@ == before + list@.take(j as int),
                decreases list.len() - j,
            {
                all.push(list[j]);
                j = j + 1;
            }
            proof {
                assert(lists.take(i + 1).drop_last() =~= lists.take(i as int));
            }
            i = i + 1;
        }
        proof {
            assert(lists.take(lists.len() as int) =~= lists);
            lists.lemma_flatten_and_flatten_alt_are_equivalent();
        }
        all
    }
}

} // verus!
