use vstd::prelude::*;

verus! {

/// A process that holds one of a set of files open.
#[derive(Debug)]
pub struct LockingProcessInfo {
    pub pid: u32,
    pub app_name: String,
    pub service_short_name: String,
    pub executable_path: Option<String>,
}

/// One entry as the Restart Manager lists it: the pid, the application and
/// service names as NUL-terminated UTF-16 buffers, and the executable path
/// found for the pid.
#[derive(Debug)]
pub struct RawLockingProcess {
    pub pid: u32,
    pub app_name: Vec<u16>,
    pub service_short_name: Vec<u16>,
    pub executable_path: Option<String>,
}

/// The text that `String::from_utf16_lossy` decodes from UTF-16 units.
pub uninterp spec fn utf16_lossy(units: Seq<u16>) -> Seq<char>;

/// Decodes UTF-16 with `String::from_utf16_lossy`; the result is named
/// [`utf16_lossy`] of the units (unpaired surrogates become U+FFFD).
#[verifier::external_body]
fn decode_utf16_lossy(units: &[u16]) -> (s: String)
    ensures
        s@ == utf16_lossy(units@),
{
    String::from_utf16_lossy(units)
}

/// The units before the first NUL (all of them when there is none).
pub open spec fn until_nul(buf: Seq<u16>) -> Seq<u16> {
    if exists|i: int| 0 <= i < buf.len() && buf[i] == 0 {
        buf.take(choose|i: int| 0 <= i < buf.len() && buf[i] == 0 && forall|j: int| 0 <= j < i ==> buf[j] != 0)
    } else {
        buf
    }
}

/// Decode a NUL-terminated UTF-16 buffer.
pub fn wide_z_to_string(buf: &[u16]) -> (s: String)
    ensures
        s@ == utf16_lossy(until_nul(buf@)),
{
    let n = buf.len();
    let mut len: usize = 0;
    while len < n
        invariant
            n == buf@.len(),
            len <= n,
            forall|j: int| 0 <= j < len ==> buf@[j] != 0,
        ensures
            len <= n,
            forall|j: int| 0 <= j < len ==> buf@[j] != 0,
            len < n ==> buf@[len as int] == 0,
        decreases n - len,
    {
        if buf[len] == 0 {
            break;
        }
        len = len + 1;
    }
    let mut prefix: Vec<u16> = Vec::new();
    let mut k: usize = 0;
    while k < len
        invariant
            n == buf@.len(),
            k <= len <= n,
            prefix@ == buf@.take(k as int),
        decreases len - k,
    {
        prefix.push(buf[k]);
        k = k + 1;
        assert(prefix@ =~= buf@.take(k as int));
    }
    proof {
        if exists|i: int| 0 <= i < buf@.len() && buf@[i] == 0 {
            let c = choose|i: int|
                0 <= i < buf@.len() && buf@[i] == 0 && forall|j: int| 0 <= j < i ==> buf@[j] != 0;
            assert(c == len as int) by {
                if len < n {
                    assert(buf@[len as int] == 0);
                } else {
                    let w = choose|i: int| 0 <= i < buf@.len() && buf@[i] == 0;
                    assert(buf@[w] != 0);
                }
                if c < len {
                    assert(buf@[c] != 0);
                }
                if c > len {
                    assert(buf@[len as int] == 0);
                }
            }
            let _ = choose|i: int| 0 <= i < buf@.len() && buf@[i] == 0;
        } else {
            if len < n {
                assert(buf@[len as int] == 0);
            }
            assert(buf@.take(len as int) =~= buf@);
        }
    }
    decode_utf16_lossy(prefix.as_slice())
}

/// Whether `pid` occurs among the first `upto` raw entries.
pub open spec fn pid_seen_before(raw: Seq<RawLockingProcess>, upto: int, pid: u32) -> bool {
    exists|i: int| 0 <= i < upto && (#[trigger] raw[i]).pid == pid
}

/// The raw entries that are kept: a real pid met for the first time.
pub open spec fn kept(raw: Seq<RawLockingProcess>, i: int) -> bool {
    raw[i].pid != 0 && !pid_seen_before(raw, i, raw[i].pid)
}

/// Whether `info` is the decoded form of `r`.
pub open spec fn decoded_from(info: LockingProcessInfo, r: RawLockingProcess) -> bool {
    &&& info.pid == r.pid
    &&& info.app_name@ == utf16_lossy(until_nul(r.app_name@))
    &&& info.service_short_name@ == utf16_lossy(until_nul(r.service_short_name@))
    &&& info.executable_path == r.executable_path
}

/// `out` decodes, in order, exactly the kept raw entries at positions `idx`.
pub open spec fn selection(raw: Seq<RawLockingProcess>, out: Seq<LockingProcessInfo>, idx: Seq<int>) -> bool {
    &&& idx.len() == out.len()
    &&& forall|j: int|
        0 <= j < idx.len() ==> 0 <= #[trigger] idx[j] < raw.len() && kept(raw, idx[j])
            && decoded_from(out[j], raw[idx[j]])
    &&& forall|a: int, b: int| 0 <= a < b < idx.len() ==> #[trigger] idx[a] < #[trigger] idx[b]
    &&& forall|i: int|
        0 <= i < raw.len() && #[trigger] kept(raw, i) ==> exists|j: int| 0 <= j < idx.len() && idx[j] == i
}

/// The processes that hold files, from the Restart Manager's list: pid 0
/// and repeated pids are skipped, order is kept, names are decoded.
pub fn collect_locking_processes(raw: &Vec<RawLockingProcess>) -> (out: Vec<LockingProcessInfo>)
    ensures
        exists|idx: Seq<int>| #[trigger] selection(raw@, out@, idx),
{
    let n = raw.len();
    let mut out: Vec<LockingProcessInfo> = Vec::new();
    let mut seen: Vec<u32> = Vec::new();
    let mut i: usize = 0;
    let ghost mut idx: Seq<int> = Seq::empty();
    while i < n
        invariant
            n == raw@.len(),
            i <= n,
            idx.len() == out@.len(),
            forall|j: int|
                0 <= j < idx.len() ==> 0 <= #[trigger] idx[j] < i && kept(raw@, idx[j])
                    && decoded_from(out@[j], raw@[idx[j]]),
            forall|a: int, b: int| 0 <= a < b < idx.len() ==> #[trigger] idx[a] < #[trigger] idx[b],
            forall|a: int|
                0 <= a < i && #[trigger] kept(raw@, a) ==> exists|j: int| 0 <= j < idx.len() && idx[j] == a,
            forall|p: u32| seen@.contains(p) <==> pid_seen_before(raw@, i as int, p),
        decreases n - i,
    {
        let r = &raw[i];
        let pid = r.pid;
        let mut already = false;
        let mut k: usize = 0;
        while k < seen.len()
            invariant
                k <= seen@.len(),
                already <==> exists|q: int| 0 <= q < k && seen@[q] == pid,
            decreases seen@.len() - k,
        {
            if seen[k] == pid {
                already = true;
            }
            k = k + 1;
        }
        assert(already <==> seen@.contains(pid));
        assert(seen@.contains(pid) <==> pid_seen_before(raw@, i as int, pid));
        let ghost old_seen = seen@;
        let ghost old_idx = idx;
        proof {
            assert forall|p: u32| pid_seen_before(raw@, i + 1, p) <==> (pid_seen_before(raw@, i as int, p) || p == pid) by {
                if p == pid {
                    assert(raw@[i as int].pid == p);
                }
                if pid_seen_before(raw@, i + 1, p) && !pid_seen_before(raw@, i as int, p) {
                    let w = choose|w: int| 0 <= w < i + 1 && (#[trigger] raw@[w]).pid == p;
                    assert(w == i);
                }
            }
        }
        if pid != 0 && !already {
            let info = LockingProcessInfo {
                pid,
                app_name: wide_z_to_string(r.app_name.as_slice()),
                service_short_name: wide_z_to_string(r.service_short_name.as_slice()),
                executable_path: r.executable_path.clone(),
            };
            out.push(info);
            proof {
                idx = idx.push(i as int);
            }
        }
        seen.push(pid);
        proof {
            assert forall|a: int|
                0 <= a < i + 1 && #[trigger] kept(raw@, a) implies exists|j: int| 0 <= j < idx.len() && idx[j] == a by {
                if a < i {
                    let j = choose|j: int| 0 <= j < old_idx.len() && old_idx[j] == a;
                    assert(idx[j] == a);
                } else {
                    assert(idx[idx.len() - 1] == a);
                }
            }
            assert forall|p: u32| seen@.contains(p) <==> pid_seen_before(raw@, i + 1, p) by {
                if seen@.contains(p) {
                    let q = choose|q: int| 0 <= q < seen@.len() && seen@[q] == p;
                    if q < old_seen.len() {
                        assert(old_seen[q] == p);
                    }
                }
                if p == pid {
                    assert(seen@[seen@.len() - 1] == p);
                }
                if old_seen.contains(p) {
                    let q = choose|q: int| 0 <= q < old_seen.len() && old_seen[q] == p;
                    assert(seen@[q] == p);
                }
            }
        }
        i = i + 1;
    }
    assert(selection(raw@, out@, idx));
    out
}

} // verus!
