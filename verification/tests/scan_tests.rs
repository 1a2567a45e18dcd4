use rust_scanner::{
    fresh_source_port, port_text, report_line, run_syn_scan, scan_tasks, Args, ConfigError,
    Interface, IpAddress, IpConfig, PortConfig, PortState, ProbeTask,
};

const V4_A: IpAddress = IpAddress::V4(0x0A00_0005);
const V4_B: IpAddress = IpAddress::V4(0x0A00_0006);
const V6_A: IpAddress = IpAddress::V6(0x2001_0db8_0000_0000_0000_0000_0000_0005);
const OWN_V4: IpAddress = IpAddress::V4(0xC0A8_0001);
const OWN_V4_SECOND: IpAddress = IpAddress::V4(0xC0A8_0002);
const OWN_V6: IpAddress = IpAddress::V6(0xfe80_0000_0000_0000_0000_0000_0000_0001);

fn dual_stack() -> Interface {
    Interface {
        name: String::from("eth0"),
        ips: vec![OWN_V6, OWN_V4, OWN_V4_SECOND],
        up: true,
        loopback: false,
    }
}

fn v4_only() -> Interface {
    Interface { name: String::from("eth1"), ips: vec![OWN_V4], up: true, loopback: false }
}

fn task(target: IpAddress, source: IpAddress, port: u16, from: u16) -> ProbeTask {
    ProbeTask {
        ip_config: IpConfig { target, source },
        port_config: PortConfig { target: port, source: from },
    }
}

#[test]
fn tasks_come_targets_outer_ports_inner() {
    let tasks = scan_tasks(
        &vec![V4_A, V6_A, V4_B],
        &vec![22, 80],
        &dual_stack(),
        &vec![1024, 2000, 3000, 4000, 5000, 65534],
    );
    assert_eq!(
        tasks,
        Ok(vec![
            task(V4_A, OWN_V4, 22, 1024),
            task(V4_A, OWN_V4, 80, 2000),
            task(V6_A, OWN_V6, 22, 3000),
            task(V6_A, OWN_V6, 80, 4000),
            task(V4_B, OWN_V4, 22, 5000),
            task(V4_B, OWN_V4, 80, 65534),
        ])
    );
}

#[test]
fn no_targets_or_no_ports_give_no_tasks() {
    assert_eq!(scan_tasks(&vec![], &vec![22, 80], &dual_stack(), &vec![]), Ok(vec![]));
    assert_eq!(scan_tasks(&vec![V4_A, V6_A], &vec![], &dual_stack(), &vec![]), Ok(vec![]));
    assert_eq!(scan_tasks(&vec![], &vec![], &v4_only(), &vec![]), Ok(vec![]));
}

#[test]
fn a_target_without_a_source_address_fails_the_scan() {
    assert_eq!(
        scan_tasks(&vec![V4_A, V6_A], &vec![22], &v4_only(), &vec![1024, 1025]),
        Err(ConfigError::NoSourceAddress)
    );
    assert_eq!(
        scan_tasks(&vec![V6_A], &vec![], &v4_only(), &vec![]),
        Err(ConfigError::NoSourceAddress)
    );
    assert_eq!(run_syn_scan(vec![V6_A, V4_A], vec![22], &v4_only()), Err(ConfigError::NoSourceAddress));
    assert_eq!(run_syn_scan(vec![V6_A], vec![], &v4_only()), Err(ConfigError::NoSourceAddress));
}

#[test]
fn a_scan_has_one_task_for_each_pairing() {
    let targets = vec![V4_A, V6_A, V4_B];
    let ports = vec![22u16, 80, 443, 8080];
    let tasks = run_syn_scan(targets.clone(), ports.clone(), &dual_stack()).unwrap();
    assert_eq!(tasks.len(), 12);
    for (i, target) in targets.iter().enumerate() {
        for (j, port) in ports.iter().enumerate() {
            let task = tasks[i * ports.len() + j];
            assert_eq!(task.ip_config.target, *target);
            assert_eq!(task.port_config.target, *port);
            let expected = if target.is_ipv4() { OWN_V4 } else { OWN_V6 };
            assert_eq!(task.ip_config.source, expected);
            assert!(task.ip_config.is_well_formed());
            assert!((1024..=65534).contains(&task.port_config.source));
        }
    }
}

#[test]
fn source_ports_are_drawn_from_the_ephemeral_range() {
    let mut lowest = u16::MAX;
    let mut highest = 0;
    for _ in 0..2000 {
        let port = fresh_source_port();
        assert!((1024..=65534).contains(&port));
        lowest = lowest.min(port);
        highest = highest.max(port);
    }
    assert!(lowest < 20000);
    assert!(highest > 45000);
}

#[test]
fn source_ports_of_a_scan_differ() {
    let tasks = run_syn_scan(vec![V4_A], (1..=200).collect(), &dual_stack()).unwrap();
    assert_eq!(tasks.len(), 200);
    let first = tasks[0].port_config.source;
    assert!(tasks.iter().any(|task| task.port_config.source != first));
}

#[test]
fn port_lists_are_joined_in_order() {
    let args = Args {
        targets: vec![V4_A],
        ports: vec![vec![80, 81, 82], vec![], vec![22], vec![443, 80]],
        interface: None,
    };
    assert_eq!(args.target_ports(), vec![80, 81, 82, 22, 443, 80]);
    let none = Args { targets: vec![], ports: vec![], interface: Some(String::from("eth0")) };
    assert_eq!(none.target_ports(), Vec::<u16>::new());
    let empty = Args { targets: vec![], ports: vec![vec![], vec![]], interface: None };
    assert_eq!(empty.target_ports(), Vec::<u16>::new());
}

#[test]
fn a_report_line_names_pairing_and_state() {
    assert_eq!(report_line("10.0.0.5", 443, PortState::Opened), "10.0.0.5:443 : opened");
    assert_eq!(report_line("10.0.0.5", 22, PortState::Closed), "10.0.0.5:22 : closed");
    assert_eq!(report_line("2001:db8::5", 65535, PortState::Filtered), "2001:db8::5:65535 : filtered");
    assert_eq!(report_line("", 0, PortState::Filtered), ":0 : filtered");
}

#[test]
fn ports_are_written_in_decimal() {
    assert_eq!(port_text(0), "0");
    assert_eq!(port_text(7), "7");
    assert_eq!(port_text(10), "10");
    assert_eq!(port_text(443), "443");
    assert_eq!(port_text(1000), "1000");
    assert_eq!(port_text(65535), "65535");
    for port in 0..=u16::MAX {
        assert_eq!(port_text(port), format!("{port}"));
    }
}
