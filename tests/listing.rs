use port_killer::port::{PortInfo, PortTable};
use port_killer::process::{descending_order, get_process_list, ProcessSample};
use port_killer::selection::{App, PromptOutcome, Reaction};

fn sample(pid: u32, name: &str, cpu_usage: u32) -> ProcessSample {
    ProcessSample { pid, name: name.to_string(), cpu_usage, memory: 1 << 20 }
}

#[test]
fn merge_keeps_every_process_and_orders_by_cpu() {
    let samples = vec![sample(1, "a", 100), sample(2, "b", 500), sample(3, "c", 100), sample(4, "d", 900)];
    let mut table = PortTable::new();
    table.add(3, PortInfo { protocol: "TCP".to_string(), port: 22 });
    table.add(2, PortInfo { protocol: "TCP".to_string(), port: 80 });
    table.add(3, PortInfo { protocol: "TCP6".to_string(), port: 22 });
    table.add(99, PortInfo { protocol: "TCP".to_string(), port: 1 });
    let list = get_process_list(&samples, &table);
    let pids: Vec<u32> = list.iter().map(|p| p.pid).collect();
    assert_eq!(pids, vec![4, 2, 1, 3]);
    let counts: Vec<usize> = list.iter().map(|p| p.ports.len()).collect();
    assert_eq!(counts, vec![0, 1, 0, 2]);
    assert_eq!(list[3].ports[1].to_text(), "TCP6:22");
    assert_eq!(list[3].name, "c");
    assert_eq!(list[0].memory, 1 << 20);
}

#[test]
fn empty_snapshot_gives_empty_list() {
    assert!(get_process_list(&vec![], &PortTable::new()).is_empty());
}

#[test]
fn order_is_stable_for_equal_keys() {
    assert_eq!(descending_order(&vec![5, 5, 7, 5, 9]), vec![4, 2, 0, 1, 3]);
    assert_eq!(descending_order(&vec![]), Vec::<usize>::new());
}

#[test]
fn name_is_padded_to_its_column() {
    let info = |name: &str| port_killer::process::ProcessInfo {
        pid: 1,
        name: name.to_string(),
        cpu_usage: 0,
        memory: 0,
        ports: vec![],
    };
    assert_eq!(info("sshd").name_padding(), 31);
    assert_eq!(info("你好").name_padding(), 31);
    assert_eq!(info(&"x".repeat(40)).name_padding(), 0);
}

#[test]
fn cancelled_prompt_sends_nothing() {
    let app = App::new();
    assert_eq!(app.reaction(PromptOutcome::Canceled), Reaction::Nothing);
    assert_eq!(app.reaction(PromptOutcome::Interrupted), Reaction::Nothing);
    assert_eq!(app.reaction(PromptOutcome::Chosen(42)), Reaction::Terminate(42));
    assert_eq!(app.reaction(PromptOutcome::Failed), Reaction::ReportFailure);
}

#[test]
fn binding_text() {
    assert_eq!(PortInfo { protocol: "TCP".to_string(), port: 0 }.to_text(), "TCP:0");
    assert_eq!(PortInfo { protocol: "TCP6".to_string(), port: 65535 }.to_text(), "TCP6:65535");
}
