use port_killer::port::PortTable;
use port_killer::windows::{
    get_pid_port_table, needs_retry, net_to_host, read_u32_le, Protocol, TableResponse,
    ERROR_INSUFFICIENT_BUFFER, NO_ERROR,
};

fn put(buf: &mut Vec<u8>, at: usize, v: u32) {
    buf[at..at + 4].copy_from_slice(&v.to_le_bytes());
}

/// A port as the table stores it: the two bytes in network order in the low
/// half of a little-endian `u32`.
fn net_port(port: u16) -> u32 {
    u32::from_le_bytes([(port >> 8) as u8, (port & 0xff) as u8, 0, 0])
}

/// An IPv4 table of rows (pid, state, port).
fn tcp_table(rows: &[(u32, u32, u16)]) -> Vec<u8> {
    let mut buf = vec![0u8; 4 + 28 * rows.len()];
    put(&mut buf, 0, rows.len() as u32);
    for (i, &(pid, state, port)) in rows.iter().enumerate() {
        let base = 4 + 28 * i;
        put(&mut buf, base, state);
        put(&mut buf, base + 8, net_port(port));
        put(&mut buf, base + 20, pid);
    }
    buf
}

/// An IPv6 table of rows (pid, state, port).
fn tcp6_table(rows: &[(u32, u32, u16)]) -> Vec<u8> {
    let mut buf = vec![0u8; 4 + 60 * rows.len()];
    put(&mut buf, 0, rows.len() as u32);
    for (i, &(pid, state, port)) in rows.iter().enumerate() {
        let base = 4 + 60 * i;
        put(&mut buf, base + 20, net_port(port));
        put(&mut buf, base + 48, state);
        put(&mut buf, base + 52, pid);
    }
    buf
}

fn filled(buffer: Vec<u8>) -> TableResponse {
    TableResponse { first_status: ERROR_INSUFFICIENT_BUFFER, retry_status: NO_ERROR, buffer }
}

fn texts(table: &PortTable, pid: u32) -> Vec<String> {
    table.ports_of(pid).iter().map(|p| p.to_text()).collect()
}

#[test]
fn retry_then_success_gives_every_row() {
    let buf = tcp_table(&[(10, 2, 80), (11, 5, 443), (12, 2, 8080)]);
    let rows = Protocol::Tcp.negotiate(&filled(buf));
    assert_eq!(rows.len(), 3);
    assert_eq!(rows[1].pid, 11);
    assert_eq!(rows[1].state, 5);
    assert_eq!(net_to_host(rows[2].port), 8080);
}

#[test]
fn only_listening_rows_become_ports() {
    let buf = tcp_table(&[(10, 2, 80), (11, 5, 443), (10, 2, 8080)]);
    let table = Protocol::Tcp.listening_ports(&filled(buf));
    assert_eq!(table.len(), 2);
    assert_eq!(texts(&table, 10), vec!["TCP:80", "TCP:8080"]);
    assert!(texts(&table, 11).is_empty());
}

#[test]
fn failed_retry_gives_nothing_for_that_table_only() {
    let failed = TableResponse {
        first_status: ERROR_INSUFFICIENT_BUFFER,
        retry_status: ERROR_INSUFFICIENT_BUFFER,
        buffer: tcp_table(&[(10, 2, 80)]),
    };
    assert_eq!(Protocol::Tcp.negotiate(&failed).len(), 0);
    let v6 = filled(tcp6_table(&[(20, 2, 443)]));
    let table = get_pid_port_table(&failed, &v6);
    assert_eq!(table.len(), 1);
    assert_eq!(texts(&table, 20), vec!["TCP6:443"]);
}

#[test]
fn unexpected_first_status_gives_nothing() {
    let odd = TableResponse { first_status: 87, retry_status: 87, buffer: tcp_table(&[(1, 2, 22)]) };
    assert_eq!(Protocol::Tcp.listening_ports(&odd).len(), 0);
}

#[test]
fn immediate_success_with_no_rows_gives_an_empty_table() {
    let done = TableResponse { first_status: NO_ERROR, retry_status: NO_ERROR, buffer: tcp_table(&[]) };
    assert_eq!(Protocol::Tcp.listening_ports(&done).len(), 0);
    assert_eq!(Protocol::Tcp6.listening_ports(&done).len(), 0);
}

#[test]
fn short_buffer_gives_no_rows() {
    let mut buf = tcp_table(&[(10, 2, 80), (11, 2, 81)]);
    buf.truncate(buf.len() - 1);
    assert_eq!(Protocol::Tcp.decode_rows(&buf).len(), 0);
    assert_eq!(Protocol::Tcp.decode_rows(&vec![1, 0]).len(), 0);
    assert_eq!(Protocol::Tcp.decode_rows(&vec![0, 0, 0, 0]).len(), 0);
}

#[test]
fn both_tables_are_joined_by_process() {
    let v4 = filled(tcp_table(&[(7, 2, 3000)]));
    let v6 = filled(tcp6_table(&[(7, 2, 3000), (8, 2, 22)]));
    let table = get_pid_port_table(&v4, &v6);
    assert_eq!(texts(&table, 7), vec!["TCP:3000", "TCP6:3000"]);
    assert_eq!(texts(&table, 8), vec!["TCP6:22"]);
}

#[test]
fn byte_order_and_statuses() {
    assert_eq!(net_to_host(0x901f), 8080);
    assert_eq!(net_to_host(0x0050_5000), 80);
    assert_eq!(read_u32_le(&vec![9, 0x78, 0x56, 0x34, 0x12], 1), 0x1234_5678);
    assert!(needs_retry(ERROR_INSUFFICIENT_BUFFER));
    assert!(!needs_retry(NO_ERROR));
    assert_eq!(Protocol::Tcp.name(), "TCP");
    assert_eq!(Protocol::Tcp6.name(), "TCP6");
}

#[test]
fn reading_the_same_tables_twice_gives_the_same_ports() {
    let v4 = || filled(tcp_table(&[(7, 2, 3000), (9, 2, 53)]));
    let v6 = || filled(tcp6_table(&[(7, 2, 3000)]));
    let first = get_pid_port_table(&v4(), &v6());
    let second = get_pid_port_table(&v4(), &v6());
    for pid in [7u32, 9, 10] {
        assert_eq!(texts(&first, pid), texts(&second, pid));
    }
}
