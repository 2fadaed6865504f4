use vstd::prelude::*;

verus! {

/// Where the interesting fields sit in one row of a TCP listener table, as
/// `GetExtendedTcpTable` lays it out.
#[derive(Debug, Clone, Copy)]
pub struct RowLayout {
    /// Size of one row in bytes.
    pub row_size: u64,
    /// Offset of the local port (network byte order, low 16 bits first).
    pub port_offset: u64,
    /// Offset of the owning pid (little-endian `u32`).
    pub pid_offset: u64,
}

/// Offset of the first row: the table starts with a `u32` entry count.
pub const TABLE_OFFSET: u64 = 4;

/// Layout of `MIB_TCPROW_OWNER_PID`: state, local address, local port,
/// remote address, remote port, owning pid, each four bytes.
pub open spec fn v4_layout() -> RowLayout {
    RowLayout { row_size: 24, port_offset: 8, pid_offset: 20 }
}

/// Layout of `MIB_TCP6ROW_OWNER_PID`: 16-byte local address, scope id, local
/// port, 16-byte remote address, scope id, remote port, state, owning pid.
pub open spec fn v6_layout() -> RowLayout {
    RowLayout { row_size: 56, port_offset: 20, pid_offset: 52 }
}

pub fn ipv4_layout() -> (l: RowLayout)
    ensures
        l == v4_layout(),
{
    RowLayout { row_size: 24, port_offset: 8, pid_offset: 20 }
}

pub fn ipv6_layout() -> (l: RowLayout)
    ensures
        l == v6_layout(),
{
    RowLayout { row_size: 56, port_offset: 20, pid_offset: 52 }
}

/// A layout whose fields lie inside its row.
pub open spec fn layout_ok(l: RowLayout) -> bool {
    &&& 0 < l.row_size <= 4096
    &&& l.port_offset + 2 <= l.row_size
    &&& l.pid_offset + 4 <= l.row_size
}

/// Little-endian `u32` at byte `at`.
pub open spec fn le_u32(b: Seq<u8>, at: int) -> int {
    b[at] + b[at + 1] * 256 + b[at + 2] * 65536 + b[at + 3] * 16777216
}

/// Big-endian `u16` at byte `at` (the port's network byte order).
pub open spec fn be_u16(b: Seq<u8>, at: int) -> int {
    b[at] * 256 + b[at + 1]
}

/// Byte offset of row `i`.
pub open spec fn row_start(l: RowLayout, i: int) -> int {
    TABLE_OFFSET + i * l.row_size
}

/// Row `i` is counted by the table and lies wholly inside the buffer.
pub open spec fn in_table(b: Seq<u8>, l: RowLayout, i: int) -> bool {
    &&& b.len() >= TABLE_OFFSET
    &&& 0 <= i < le_u32(b, 0)
    &&& row_start(l, i) + l.row_size <= b.len()
}

/// Row `i` listens on `port` and is owned by a real process (pid 0 is the
/// idle process and never counts).
pub open spec fn row_matches(b: Seq<u8>, l: RowLayout, i: int, port: u16) -> bool {
    &&& in_table(b, l, i)
    &&& be_u16(b, row_start(l, i) + l.port_offset) == port
    &&& le_u32(b, row_start(l, i) + l.pid_offset) != 0
}

/// The owning pid of row `i`.
pub open spec fn row_pid(b: Seq<u8>, l: RowLayout, i: int) -> int {
    le_u32(b, row_start(l, i) + l.pid_offset)
}

/// The answer of a table lookup: the pid of the first matching row.
pub open spec fn lookup_result(b: Seq<u8>, l: RowLayout, port: u16, r: Option<u32>) -> bool {
    match r {
        Some(pid) => exists|i: int|
            #[trigger] row_matches(b, l, i, port) && row_pid(b, l, i) == pid && forall|j: int|
                0 <= j < i ==> !row_matches(b, l, j, port),
        None => forall|i: int| !(#[trigger] row_matches(b, l, i, port)),
    }
}

fn read_le_u32(b: &[u8], at: usize) -> (v: u32)
    requires
        at + 4 <= b@.len(),
    ensures
        v == le_u32(b@, at as int),
{
    let b0 = b[at] as u32;
    let b1 = b[at + 1] as u32;
    let b2 = b[at + 2] as u32;
    let b3 = b[at + 3] as u32;
    b0 + b1 * 256 + b2 * 65536 + b3 * 16777216
}

/// Search a TCP listener table for the process listening on `port`: the
/// pid of the first row (in table order, within the buffer) whose port is
/// `port` and whose pid is not 0.
pub fn find_listener(table: &[u8], layout: RowLayout, port: u16) -> (r: Option<u32>)
    requires
        layout_ok(layout),
    ensures
        lookup_result(table@, layout, port, r),
{
    let len = table.len();
    if len < 4 {
        return None;
    }
    let num_entries = read_le_u32(table, 0) as u64;
    let len64 = len as u64;
    let mut i: u64 = 0;
    while i < num_entries
        invariant
            layout_ok(layout),
            len == table@.len(),
            len64 == len,
            len >= 4,
            num_entries == le_u32(table@, 0),
            i <= num_entries,
            num_entries <= u32::MAX,
            forall|j: int| 0 <= j < i ==> !row_matches(table@, layout, j, port),
        decreases num_entries - i,
    {
        assert(i * layout.row_size <= 0x1_0000_0000 * 4096) by (nonlinear_arith)
            requires
                i <= 0x1_0000_0000,
                layout.row_size <= 4096,
        ;
        let offset = 4 + i * layout.row_size;
        if offset + layout.row_size > len64 {
            proof {
                assert forall|j: int| !(#[trigger] row_matches(table@, layout, j, port)) by {
                    if i <= j {
                        assert(row_start(layout, j) >= row_start(layout, i as int)) by (nonlinear_arith)
                            requires
                                i <= j,
                                layout.row_size > 0,
                        ;
                    }
                }
            }
            return None;
        }
        let port_at = (offset + layout.port_offset) as usize;
        let row_port = (table[port_at] as u32) * 256 + table[port_at + 1] as u32;
        let pid = read_le_u32(table, (offset + layout.pid_offset) as usize);
        if row_port == port as u32 && pid != 0 {
            proof {
                assert(row_matches(table@, layout, i as int, port));
            }
            return Some(pid);
        }
        i = i + 1;
    }
    proof {
        assert forall|j: int| !(#[trigger] row_matches(table@, layout, j, port)) by {
        }
    }
    None
}

/// The process listening on `port` according to an IPv4 listener table.
pub fn find_listener_v4(table: &[u8], port: u16) -> (r: Option<u32>)
    ensures
        lookup_result(table@, v4_layout(), port, r),
{
    find_listener(table, ipv4_layout(), port)
}

/// The process listening on `port` according to an IPv6 listener table.
pub fn find_listener_v6(table: &[u8], port: u16) -> (r: Option<u32>)
    ensures
        lookup_result(table@, v6_layout(), port, r),
{
    find_listener(table, ipv6_layout(), port)
}

/// The pid listening on `port`, from the IPv4 table and otherwise the IPv6
/// table (`None` for a table that could not be fetched).
pub fn get_pid_on_port(v4_table: Option<&[u8]>, v6_table: Option<&[u8]>, port: u16) -> (r: Option<u32>)
    ensures
        ({
            let from_v4 = match v4_table {
                Some(t) => exists|p: u32| lookup_result(t@, v4_layout(), port, Some(p)),
                None => false,
            };
            &&& from_v4 ==> lookup_result(v4_table->Some_0@, v4_layout(), port, r)
            &&& !from_v4 ==> match v6_table {
                Some(t) => lookup_result(t@, v6_layout(), port, r),
                None => r is None,
            }
        }),
{
    let v4 = match v4_table {
        Some(t) => find_listener_v4(t, port),
        None => None,
    };
    if v4.is_some() {
        return v4;
    }
    proof {
        if let Some(t) = v4_table {
            if exists|p: u32| lookup_result(t@, v4_layout(), port, Some(p)) {
                let p = choose|p: u32| lookup_result(t@, v4_layout(), port, Some(p));
                let i = choose|i: int|
                    #[trigger] row_matches(t@, v4_layout(), i, port) && row_pid(t@, v4_layout(), i) == p
                        && forall|j: int| 0 <= j < i ==> !row_matches(t@, v4_layout(), j, port);
                assert(row_matches(t@, v4_layout(), i, port));
            }
        }
    }
    match v6_table {
        Some(t) => find_listener_v6(t, port),
        None => None,
    }
}

} // verus!
