//! Listening ports read from the TCP tables of the Windows IP helper API.
//!
//! Each table is fetched in two calls: the first, with no room for rows,
//! reports the size the table needs; the second fills a buffer of that size.
//! The buffer holds the number of rows as a little-endian `u32`, followed by
//! the rows, each a fixed run of little-endian `u32` fields.

use vstd::prelude::*;
use crate::port::{port_map, PortBinding, PortInfo, PortTable};

verus! {

/// Status of a call that completed.
pub const NO_ERROR: u32 = 0;

/// Status of a call whose buffer was too small for the table.
pub const ERROR_INSUFFICIENT_BUFFER: u32 = 122;

/// Connection state of a listening socket.
pub const MIB_TCP_STATE_LISTEN: u32 = 2;

/// Bytes before the first row of a table: its row count.
pub const TABLE_HEADER_LEN: usize = 4;

/// The two TCP tables: IPv4 and IPv6.
#[derive(Clone, Copy, Debug, PartialEq, Eq, Structural)]
pub enum Protocol {
    Tcp,
    Tcp6,
}

/// One row of a TCP table, as the fields the resolution reads: owning process
/// id, connection state, and local port in network byte order.
#[derive(Clone, Copy, Debug, PartialEq, Eq, Structural)]
pub struct TableRow {
    pub pid: u32,
    pub state: u32,
    pub port: u32,
}

/// What the two calls for one table returned: the status of the first call,
/// the status of the second (equal to the first where no second call was
/// made), and the buffer that the second call filled.
pub struct TableResponse {
    pub first_status: u32,
    pub retry_status: u32,
    pub buffer: Vec<u8>,
}

/// The `u32` stored little-endian at `at` in `b`.
pub open spec fn u32_le(b: Seq<u8>, at: int) -> nat {
    b[at] as nat + 256 * (b[at + 1] as nat) + 65536 * (b[at + 2] as nat) + 16777216 * (
    b[at + 3] as nat)
}

/// A 16-bit value in network byte order turned to host byte order: the low
/// two bytes of `raw`, swapped.
pub open spec fn net_to_host16(raw: u32) -> u16 {
    ((raw % 256) * 256 + (raw / 256) % 256) as u16
}

impl Protocol {
    /// Bytes in one row: `MIB_TCPROW2` and `MIB_TCP6ROW2`.
    pub open spec fn spec_row_len(self) -> nat {
        match self {
            Protocol::Tcp => 28,
            Protocol::Tcp6 => 60,
        }
    }

    /// Offsets in a row of the process id, the state and the local port.
    pub open spec fn spec_offsets(self) -> (nat, nat, nat) {
        match self {
            Protocol::Tcp => (20, 0, 8),
            Protocol::Tcp6 => (52, 48, 20),
        }
    }

    /// The name that bindings of this table carry.
    pub open spec fn spec_name(self) -> Seq<char> {
        match self {
            Protocol::Tcp => seq!['T', 'C', 'P'],
            Protocol::Tcp6 => seq!['T', 'C', 'P', '6'],
        }
    }

    /// Whether `b` holds a header and all the rows that the header counts.
    pub open spec fn holds_rows(self, b: Seq<u8>) -> bool {
        b.len() >= 4 && 4 + u32_le(b, 0) * self.spec_row_len() <= b.len()
    }

    /// Row `i` of the table in `b`.
    pub open spec fn row_at(self, b: Seq<u8>, i: int) -> TableRow {
        let base = 4 + i * self.spec_row_len();
        let (pid, state, port) = self.spec_offsets();
        TableRow {
            pid: u32_le(b, base + pid) as u32,
            state: u32_le(b, base + state) as u32,
            port: u32_le(b, base + port) as u32,
        }
    }

    /// The rows of the table in `b`; none where `b` cannot hold what its
    /// header counts.
    pub open spec fn rows_of(self, b: Seq<u8>) -> Seq<TableRow> {
        if self.holds_rows(b) {
            Seq::new(u32_le(b, 0), |i: int| self.row_at(b, i))
        } else {
            Seq::empty()
        }
    }

    /// The rows that the two calls give: those of the filled buffer where the
    /// first call asked for more room and the second succeeded, else none.
    pub open spec fn negotiated_rows(self, first: u32, retry: u32, b: Seq<u8>) -> Seq<TableRow> {
        if first == ERROR_INSUFFICIENT_BUFFER && retry == NO_ERROR {
            self.rows_of(b)
        } else {
            Seq::empty()
        }
    }

    /// The pairs that listening rows give, in the order of the rows.
    pub open spec fn listening_pairs(self, rows: Seq<TableRow>) -> Seq<(u32, PortBinding)>
        decreases rows.len(),
    {
        if rows.len() == 0 {
            Seq::empty()
        } else {
            let rest = self.listening_pairs(rows.drop_last());
            let row = rows.last();
            if row.state == MIB_TCP_STATE_LISTEN {
                rest.push((row.pid, (self.spec_name(), net_to_host16(row.port))))
            } else {
                rest
            }
        }
    }

    /// The name that bindings of this table carry.
    pub fn name(&self) -> (r: String)
        ensures
            r@ == self.spec_name(),
    {
        match self {
            Protocol::Tcp => {
                proof {
                    reveal_strlit("TCP");
                }
                String::from_str("TCP")
            },
            Protocol::Tcp6 => {
                proof {
                    reveal_strlit("TCP6");
                }
                String::from_str("TCP6")
            },
        }
    }

    fn row_len(&self) -> (r: usize)
        ensures
            r == self.spec_row_len(),
    {
        match self {
            Protocol::Tcp => 28,
            Protocol::Tcp6 => 60,
        }
    }

    fn offsets(&self) -> (r: (usize, usize, usize))
        ensures
            r.0 == self.spec_offsets().0,
            r.1 == self.spec_offsets().1,
            r.2 == self.spec_offsets().2,
    {
        match self {
            Protocol::Tcp => (20, 0, 8),
            Protocol::Tcp6 => (52, 48, 20),
        }
    }

    /// The rows of the table in `buffer`, checked against its length: none
    /// where the buffer cannot hold what its header counts.
    pub fn decode_rows(&self, buffer: &Vec<u8>) -> (r: Vec<TableRow>)
        ensures
            r@ == self.rows_of(buffer@),
    {
        let b = buffer;
        if b.len() < TABLE_HEADER_LEN {
            return Vec::new();
        }
        let count = read_u32_le(b, 0) as usize;
        let row_len = self.row_len();
        if count > (b.len() - TABLE_HEADER_LEN) / row_len {
            proof {
                assert(count * row_len > b.len() - 4) by (nonlinear_arith)
                    requires
                        count > (b.len() - 4) / row_len as int,
                        row_len > 0,
                ;
            }
            return Vec::new();
        }
        assert(count * row_len <= b.len() - 4) by (nonlinear_arith)
            requires
                count <= (b.len() - 4) / row_len as int,
                row_len > 0,
        ;
        let (pid_at, state_at, port_at) = self.offsets();
        let mut rows: Vec<TableRow> = Vec::new();
        let mut i: usize = 0;
        while i < count
            invariant
                b@ == buffer@,
                self.holds_rows(b@),
                count == u32_le(b@, 0),
                row_len == self.spec_row_len(),
                pid_at == self.spec_offsets().0,
                state_at == self.spec_offsets().1,
                port_at == self.spec_offsets().2,
                i <= count,
                count * row_len <= b@.len() - 4,
                b@.len() <= usize::MAX,
                row_len > 0,
                rows@.len() == i,
                forall|k: int| 0 <= k < i ==> rows@[k] == self.row_at(b@, k),
            decreases count - i,
        {
            assert(i * row_len + row_len <= count * row_len) by (nonlinear_arith)
                requires
                    i < count,
                    row_len > 0,
            ;
            let base = TABLE_HEADER_LEN + i * row_len;
            let row = TableRow {
                pid: read_u32_le(b, base + pid_at),
                state: read_u32_le(b, base + state_at),
                port: read_u32_le(b, base + port_at),
            };
            rows.push(row);
            i = i + 1;
        }
        assert(rows@ =~= self.rows_of(b@));
        rows
    }

    /// The rows that the two calls for this table give: the rows of the
    /// filled buffer where the first call reported too small a buffer and the
    /// second succeeded; none on any other status.
    pub fn negotiate(&self, response: &TableResponse) -> (r: Vec<TableRow>)
        ensures
            r@ == self.negotiated_rows(
                response.first_status,
                response.retry_status,
                response.buffer@,
            ),
    {
        if needs_retry(response.first_status) && response.retry_status == NO_ERROR {
            self.decode_rows(&response.buffer)
        } else {
            Vec::new()
        }
    }

    /// The listening ports of this table: for each row in the listening
    /// state, its process id with this protocol's name and the local port in
    /// host byte order.
    pub fn listening_ports(&self, response: &TableResponse) -> (r: PortTable)
        ensures
            r@ == self.listening_pairs(
                self.negotiated_rows(response.first_status, response.retry_status, response.buffer@),
            ),
    {
        let rows = self.negotiate(response);
        let mut table = PortTable::new();
        let mut i: usize = 0;
        while i < rows.len()
            invariant
                i <= rows@.len(),
                table@ == self.listening_pairs(rows@.subrange(0, i as int)),
            decreases rows@.len() - i,
        {
            let row = rows[i];
            assert(rows@.subrange(0, i + 1).drop_last() =~= rows@.subrange(0, i as int));
            if row.state == MIB_TCP_STATE_LISTEN {
                table.add(row.pid, PortInfo { protocol: self.name(), port: net_to_host(row.port) });
            }
            i = i + 1;
        }
        assert(rows@.subrange(0, i as int) =~= rows@);
        table
    }
}

/// Whether the status of the first call asks for a second call with a buffer
/// of the reported size.
pub fn needs_retry(status: u32) -> (r: bool)
    ensures
        r == (status == ERROR_INSUFFICIENT_BUFFER),
{
    status == ERROR_INSUFFICIENT_BUFFER
}

/// The `u32` stored little-endian at `at` in `b`.
pub fn read_u32_le(b: &Vec<u8>, at: usize) -> (r: u32)
    requires
        at + 4 <= b@.len(),
    ensures
        r == u32_le(b@, at as int),
{
    let len = b.len();
    assert(at + 4 <= len);
    let b0 = b[at] as u32;
    let b1 = b[at + 1] as u32;
    let b2 = b[at + 2] as u32;
    let b3 = b[at + 3] as u32;
    assert(b0 < 256 && b1 < 256 && b2 < 256 && b3 < 256);
    b0 + 256 * b1 + 65536 * b2 + 16777216 * b3
}

/// A 16-bit port in network byte order, held in the low bytes of `raw`,
/// turned to host byte order.
pub fn net_to_host(raw: u32) -> (r: u16)
    ensures
        r == net_to_host16(raw),
{
    ((raw % 256) * 256 + (raw / 256) % 256) as u16
}

/// The listening ports of both TCP tables: those of the IPv4 table, then
/// those of the IPv6 table. A table whose calls failed adds nothing, and the
/// other's ports stand.
pub fn get_pid_port_table(tcp: &TableResponse, tcp6: &TableResponse) -> (r: PortTable)
    ensures
        r@ == Protocol::Tcp.listening_pairs(
            Protocol::Tcp.negotiated_rows(tcp.first_status, tcp.retry_status, tcp.buffer@),
        ) + Protocol::Tcp6.listening_pairs(
            Protocol::Tcp6.negotiated_rows(tcp6.first_status, tcp6.retry_status, tcp6.buffer@),
        ),
{
    let mut table = Protocol::Tcp.listening_ports(tcp);
    let v6 = Protocol::Tcp6.listening_ports(tcp6);
    table.append(v6);
    table
}

/// Where the first call asks for more room and the second succeeds on a
/// buffer that holds what its header counts, the rows are as many as the
/// header reports; where the second call does not succeed there are none.
pub proof fn lemma_negotiated_row_count(p: Protocol, first: u32, retry: u32, b: Seq<u8>)
    ensures
        first == ERROR_INSUFFICIENT_BUFFER && retry == NO_ERROR && p.holds_rows(b) ==> p.negotiated_rows(
            first,
            retry,
            b,
        ).len() == u32_le(b, 0),
        retry != NO_ERROR ==> p.negotiated_rows(first, retry, b).len() == 0,
        first != ERROR_INSUFFICIENT_BUFFER ==> p.negotiated_rows(first, retry, b).len() == 0,
{
}

/// Resolving twice against the same answers of the two tables gives the same
/// table, as a map from process id to bindings.
pub proof fn lemma_resolution_repeatable(
    tcp: (u32, u32, Seq<u8>),
    tcp6: (u32, u32, Seq<u8>),
    tcp_again: (u32, u32, Seq<u8>),
    tcp6_again: (u32, u32, Seq<u8>),
)
    requires
        tcp == tcp_again,
        tcp6 == tcp6_again,
    ensures
        port_map(
            Protocol::Tcp.listening_pairs(Protocol::Tcp.negotiated_rows(tcp.0, tcp.1, tcp.2))
                + Protocol::Tcp6.listening_pairs(Protocol::Tcp6.negotiated_rows(tcp6.0, tcp6.1, tcp6.2)),
        ) == port_map(
            Protocol::Tcp.listening_pairs(
                Protocol::Tcp.negotiated_rows(tcp_again.0, tcp_again.1, tcp_again.2),
            ) + Protocol::Tcp6.listening_pairs(
                Protocol::Tcp6.negotiated_rows(tcp6_again.0, tcp6_again.1, tcp6_again.2),
            ),
        ),
{
}

} // verus!
