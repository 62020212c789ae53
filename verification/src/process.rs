//! Which process owns each socket, and the details of one process.
use std::collections::HashMap;
use vstd::prelude::*;
use crate::text::{chars_of, decimal, u64_text};
use crate::types::{ChildProcess, ProcessDetail, ProcessInfo};

verus! {

broadcast use {vstd::string::group_string_axioms, vstd::std_specs::hash::group_hash_axioms};

/// What was read of one running process: its pid, command name, arguments
/// (when readable), working directory (when readable) and the inodes of
/// the sockets among its open file descriptors.
#[derive(Debug)]
pub struct ProcessSnapshot {
    pub pid: i32,
    pub comm: String,
    pub cmdline: Option<Vec<String>>,
    pub cwd: Option<String>,
    pub socket_inodes: Vec<u64>,
}

/// Words joined by single spaces.
pub open spec fn joined(words: Seq<Seq<char>>) -> Seq<char>
    decreases words.len(),
{
    if words.len() == 0 {
        Seq::empty()
    } else if words.len() == 1 {
        words[0]
    } else {
        joined(words.drop_last()) + " "@ + words.last()
    }
}

/// The texts of a list of strings.
pub open spec fn texts(v: Seq<String>) -> Seq<Seq<char>> {
    v.map_values(|s: String| s@)
}

/// Joins strings with single spaces (`[String]::join(" ")`).
pub fn join_words(words: &Vec<String>) -> (r: String)
    ensures
        r@ == joined(texts(words@)),
{
    let mut r = String::new();
    for i in 0..words.len()
        invariant
            r@ == joined(texts(words@.take(i as int))),
    {
        assert(texts(words@.take(i + 1)).drop_last() == texts(words@.take(i as int)));
        assert(texts(words@.take(i + 1)).last() == words@[i as int]@);
        if i > 0 {
            r.append(" ");
        }
        r.append(words[i].as_str());
        assert(texts(words@.take(i as int)).len() == i);
    }
    assert(words@.take(words.len() as int) == words@);
    r
}

/// The text of an optional string.
pub open spec fn opt_text(s: Option<String>) -> Option<Seq<char>> {
    match s {
        Some(t) => Some(t@),
        None => None,
    }
}

/// What an owner record holds: pid, name, command line and working
/// directory, as text.
pub open spec fn info_view(i: ProcessInfo) -> (i32, Seq<char>, Seq<char>, Option<Seq<char>>) {
    (i.pid, i.name@, i.cmdline@, opt_text(i.cwd))
}

/// The owner record of a process: its command line is its arguments joined
/// by spaces, or its command name when the arguments could not be read.
pub open spec fn owner_view(p: ProcessSnapshot) -> (i32, Seq<char>, Seq<char>, Option<Seq<char>>) {
    (
        p.pid,
        p.comm@,
        match p.cmdline {
            Some(args) => joined(texts(args@)),
            None => p.comm@,
        },
        opt_text(p.cwd),
    )
}

/// `m` with every inode of `inodes` mapped to `v`.
pub open spec fn map_all<V>(m: Map<u64, V>, inodes: Seq<u64>, v: V) -> Map<u64, V>
    decreases inodes.len(),
{
    if inodes.len() == 0 {
        m
    } else {
        map_all(m, inodes.drop_last(), v).insert(inodes.last(), v)
    }
}

/// The socket map after scanning the processes `ps` in order: each socket
/// inode maps to the owner record of the last process holding it.
pub open spec fn socket_owners(ps: Seq<ProcessSnapshot>) -> Map<u64, (i32, Seq<char>, Seq<char>, Option<Seq<char>>)>
    decreases ps.len(),
{
    if ps.len() == 0 {
        Map::empty()
    } else {
        map_all(socket_owners(ps.drop_last()), ps.last().socket_inodes@, owner_view(ps.last()))
    }
}

proof fn lemma_map_all<V>(m: Map<u64, V>, inodes: Seq<u64>, v: V, k: u64)
    ensures
        map_all(m, inodes, v).contains_key(k) <==> (m.contains_key(k) || inodes.contains(k)),
        inodes.contains(k) ==> map_all(m, inodes, v)[k] == v,
        !inodes.contains(k) ==> map_all(m, inodes, v)[k] == m[k],
    decreases inodes.len(),
{
    if inodes.len() > 0 {
        lemma_map_all(m, inodes.drop_last(), v, k);
        if inodes.contains(k) && k != inodes.last() {
            let j = choose|j: int| 0 <= j < inodes.len() && inodes[j] == k;
            assert(inodes.drop_last()[j] == k);
        }
        if inodes.drop_last().contains(k) {
            let j = choose|j: int| 0 <= j < inodes.drop_last().len() && inodes.drop_last()[j] == k;
            assert(inodes[j] == k);
        }
        assert(inodes[inodes.len() - 1] == inodes.last());
    }
}

/// The socket map holds exactly the socket inodes of the processes read,
/// and each maps to the owner record of the last process that holds it.
pub proof fn lemma_socket_owners(ps: Seq<ProcessSnapshot>, k: u64)
    ensures
        socket_owners(ps).contains_key(k) <==> exists|i: int|
            0 <= i < ps.len() && (#[trigger] ps[i]).socket_inodes@.contains(k),
        socket_owners(ps).contains_key(k) ==> exists|i: int|
            0 <= i < ps.len() && (#[trigger] ps[i]).socket_inodes@.contains(k) && socket_owners(ps)[k]
                == owner_view(ps[i]) && forall|j: int|
                i < j < ps.len() ==> !(#[trigger] ps[j]).socket_inodes@.contains(k),
    decreases ps.len(),
{
    if ps.len() > 0 {
        let rest = ps.drop_last();
        let last = ps.last();
        lemma_socket_owners(rest, k);
        lemma_map_all(socket_owners(rest), last.socket_inodes@, owner_view(last), k);
        assert(ps[ps.len() - 1] == last);
        if last.socket_inodes@.contains(k) {
            assert(ps[ps.len() - 1].socket_inodes@.contains(k));
        } else {
            if exists|i: int| 0 <= i < ps.len() && (#[trigger] ps[i]).socket_inodes@.contains(k) {
                let i = choose|i: int| 0 <= i < ps.len() && (#[trigger] ps[i]).socket_inodes@.contains(k);
                assert(rest[i] == ps[i]);
            }
            if socket_owners(rest).contains_key(k) {
                let i = choose|i: int|
                    0 <= i < rest.len() && (#[trigger] rest[i]).socket_inodes@.contains(k) && socket_owners(rest)[k]
                        == owner_view(rest[i]) && forall|j: int|
                        i < j < rest.len() ==> !(#[trigger] rest[j]).socket_inodes@.contains(k);
                assert(ps[i] == rest[i]);
                assert forall|j: int| i < j < ps.len() implies !(#[trigger] ps[j]).socket_inodes@.contains(k) by {
                    if j < ps.len() - 1 {
                        assert(rest[j] == ps[j]);
                    }
                }
            }
        }
    }
}

/// The owner record of a process.
fn owner_record(p: &ProcessSnapshot) -> (r: ProcessInfo)
    ensures
        info_view(r) == owner_view(*p),
{
    let cmdline = match &p.cmdline {
        Some(args) => join_words(args),
        None => p.comm.clone(),
    };
    ProcessInfo {
        pid: p.pid,
        name: p.comm.clone(),
        cmdline,
        cwd: match &p.cwd {
            Some(c) => Some(c.clone()),
            None => None,
        },
    }
}

/// Build a map of socket inode -> owner record from the processes read
/// (in scan order); a socket held by several processes maps to the last.
pub fn build_inode_to_process_map(procs: &Vec<ProcessSnapshot>) -> (r: HashMap<u64, ProcessInfo>)
    ensures
        r@.dom() == socket_owners(procs@).dom(),
        forall|k: u64| #[trigger] r@.contains_key(k) ==> info_view(r@[k]) == socket_owners(procs@)[k],
{
    let mut map: HashMap<u64, ProcessInfo> = HashMap::new();
    for i in 0..procs.len()
        invariant
            map@.dom() == socket_owners(procs@.take(i as int)).dom(),
            forall|k: u64| #[trigger] map@.contains_key(k) ==> info_view(map@[k]) == socket_owners(procs@.take(i as int))[k],
    {
        let p = &procs[i];
        let info = owner_record(p);
        let ghost before = socket_owners(procs@.take(i as int));
        assert(procs@.take(i + 1).drop_last() == procs@.take(i as int));
        assert(procs@.take(i + 1).last() == *p);
        let ghost base = map@;
        for j in 0..p.socket_inodes.len()
            invariant
                map@.dom() == map_all(before, p.socket_inodes@.take(j as int), owner_view(*p)).dom(),
                forall|k: u64| #[trigger] map@.contains_key(k) ==> info_view(map@[k]) == map_all(before, p.socket_inodes@.take(j as int), owner_view(*p))[k],
                info_view(info) == owner_view(*p),
        {
            let inode = p.socket_inodes[j];
            assert(p.socket_inodes@.take(j + 1).drop_last() == p.socket_inodes@.take(j as int));
            map.insert(inode, info.clone());
        }
        assert(p.socket_inodes@.take(p.socket_inodes.len() as int) == p.socket_inodes@);
    }
    assert(procs@.take(procs.len() as int) == procs@);
    map
}

/// What was read of any process while looking for children: its pid, its
/// parent's pid and its command name.
#[derive(Debug)]
pub struct ProcessStat {
    pub pid: i32,
    pub ppid: i32,
    pub comm: String,
}

/// The children of `pid` among the processes scanned, in scan order.
pub open spec fn children_in(pid: i32, ps: Seq<ProcessStat>) -> Seq<ChildProcess>
    decreases ps.len(),
{
    if ps.len() == 0 {
        Seq::empty()
    } else if ps.last().ppid == pid {
        children_in(pid, ps.drop_last()).push(ChildProcess { pid: ps.last().pid, name: ps.last().comm })
    } else {
        children_in(pid, ps.drop_last())
    }
}

/// The direct children of process `pid` among the processes scanned;
/// none when the process list could not be read.
pub fn load_children(pid: i32, procs: &Option<Vec<ProcessStat>>) -> (r: Vec<ChildProcess>)
    ensures
        r@ == (match procs {
            Some(ps) => children_in(pid, ps@),
            None => Seq::empty(),
        }),
{
    let mut children: Vec<ChildProcess> = Vec::new();
    match procs {
        Some(ps) => {
            for i in 0..ps.len()
                invariant
                    children@ == children_in(pid, ps@.take(i as int)),
            {
                assert(ps@.take(i + 1).drop_last() == ps@.take(i as int));
                let st = &ps[i];
                if st.ppid == pid {
                    children.push(ChildProcess { pid: st.pid, name: st.comm.clone() });
                }
            }
            assert(ps@.take(ps.len() as int) == ps@);
        },
        None => {},
    }
    children
}

/// An ASCII hexadecimal digit.
pub open spec fn is_hex_digit(c: char) -> bool {
    ('0' <= c && c <= '9') || ('a' <= c && c <= 'f') || ('A' <= c && c <= 'F')
}

fn hex_digit(c: char) -> (r: bool)
    ensures
        r == is_hex_digit(c),
{
    ('0' <= c && c <= '9') || ('a' <= c && c <= 'f') || ('A' <= c && c <= 'F')
}

/// `pat` occurs in `s` at position `i`.
pub open spec fn occurs_at(s: Seq<char>, pat: Seq<char>, i: int) -> bool {
    0 <= i && i + pat.len() <= s.len() && s.subrange(i, i + pat.len()) == pat
}

/// The first position at or after `k` where `pat` occurs in `s`.
pub open spec fn find_from(s: Seq<char>, pat: Seq<char>, k: int) -> Option<int>
    decreases s.len() + 1 - k,
{
    if k < 0 || k + pat.len() > s.len() {
        None
    } else if occurs_at(s, pat, k) {
        Some(k)
    } else {
        find_from(s, pat, k + 1)
    }
}

/// The container id in a cgroup path after the first `prefix`: the twelve
/// hex digits that follow it, when the twelve characters after it are all
/// hex digits.
pub open spec fn container_hash(path: Seq<char>, prefix: Seq<char>) -> Option<Seq<char>> {
    match find_from(path, prefix, 0) {
        Some(i) => {
            let after = path.skip(i + prefix.len());
            if after.len() >= 12 && forall|j: int| 0 <= j < 12 ==> is_hex_digit(#[trigger] after[j]) {
                Some(after.take(12))
            } else {
                None
            }
        },
        None => None,
    }
}

fn occurs_here(s: &Vec<char>, pat: &Vec<char>, k: usize) -> (r: bool)
    requires
        k + pat@.len() <= s@.len(),
    ensures
        r == occurs_at(s@, pat@, k as int),
{
    let n = s.len();
    let mut j: usize = 0;
    while j < pat.len()
        invariant
            n == s@.len(),
            j <= pat@.len(),
            k + pat@.len() <= s@.len(),
            forall|t: int| 0 <= t < j ==> s@[k + t] == pat@[t],
        decreases pat.len() - j,
    {
        if s[k + j] != pat[j] {
            assert(s@.subrange(k as int, k + pat@.len())[j as int] != pat@[j as int]);
            return false;
        }
        j = j + 1;
    }
    assert(s@.subrange(k as int, k + pat@.len()) =~= pat@);
    true
}

/// The first position where `pat` occurs in `s`.
fn first_match(s: &Vec<char>, pat: &Vec<char>) -> (r: Option<usize>)
    ensures
        match r {
            Some(i) => find_from(s@, pat@, 0) == Some(i as int) && i + pat@.len() <= s@.len(),
            None => find_from(s@, pat@, 0) is None,
        },
{
    if pat.len() > s.len() {
        return None;
    }
    let last = s.len() - pat.len();
    let mut k: usize = 0;
    while k <= last
        invariant
            last + pat@.len() == s@.len(),
            k <= last + 1,
            find_from(s@, pat@, 0) == find_from(s@, pat@, k as int),
        decreases last + 1 - k,
    {
        if occurs_here(s, pat, k) {
            return Some(k);
        }
        if k == last {
            return None;
        }
        k = k + 1;
    }
    None
}

/// The container id in a cgroup path after the first `prefix`, if twelve
/// hex digits follow it.
pub fn extract_container_hash(path: &str, prefix: &str) -> (r: Option<String>)
    ensures
        match r {
            Some(h) => container_hash(path@, prefix@) == Some(h@),
            None => container_hash(path@, prefix@) is None,
        },
{
    let s = chars_of(path);
    let pat = chars_of(prefix);
    let i = match first_match(&s, &pat) {
        Some(i) => i,
        None => {
            return None;
        },
    };
    let n = s.len();
    let start = i + pat.len();
    let ghost after = s@.skip(start as int);
    if s.len() - start < 12 {
        assert(after.len() < 12);
        return None;
    }
    let mut j: usize = 0;
    while j < 12
        invariant
            n == s@.len(),
            start + 12 <= s@.len(),
            after == s@.skip(start as int),
            j <= 12,
            s@ == path@,
            pat@ == prefix@,
            find_from(s@, pat@, 0) == Some(i as int),
            start == i + pat@.len(),
            forall|t: int| 0 <= t < j ==> is_hex_digit(#[trigger] after[t]),
        decreases 12 - j,
    {
        if !hex_digit(s[start + j]) {
            assert(!is_hex_digit(after[j as int]));
            return None;
        }
        j = j + 1;
    }
    let mut h = String::new();
    let mut t: usize = 0;
    while t < 12
        invariant
            n == s@.len(),
            start + 12 <= s@.len(),
            after == s@.skip(start as int),
            t <= 12,
            s@ == path@,
            pat@ == prefix@,
            find_from(s@, pat@, 0) == Some(i as int),
            start == i + pat@.len(),
            h@ == after.take(t as int),
        decreases 12 - t,
    {
        crate::text::push_char(&mut h, s[start + t]);
        assert(after.take(t + 1) == after.take(t as int).push(after[t as int]));
        t = t + 1;
    }
    Some(h)
}

/// A container id found is twelve hex digits that follow the prefix.
pub proof fn lemma_container_hash_shape(path: Seq<char>, prefix: Seq<char>)
    ensures
        container_hash(path, prefix) matches Some(h) ==> {
            &&& h.len() == 12
            &&& forall|j: int| 0 <= j < 12 ==> is_hex_digit(#[trigger] h[j])
            &&& exists|i: int| occurs_at(path, prefix, i) && path.subrange(i + prefix.len(), i + prefix.len() + 12) == h
        },
{
    if let Some(i) = find_from(path, prefix, 0) {
        lemma_find_from_occurs(path, prefix, 0);
        let after = path.skip(i + prefix.len());
        if after.len() >= 12 && forall|j: int| 0 <= j < 12 ==> is_hex_digit(#[trigger] after[j]) {
            let h = after.take(12);
            assert forall|j: int| 0 <= j < 12 implies is_hex_digit(#[trigger] h[j]) by {
                assert(h[j] == after[j]);
            }
            assert(path.subrange(i + prefix.len(), i + prefix.len() + 12) =~= h);
        }
    }
}

proof fn lemma_find_from_occurs(s: Seq<char>, pat: Seq<char>, k: int)
    ensures
        find_from(s, pat, k) matches Some(i) ==> occurs_at(s, pat, i) && i >= k,
    decreases s.len() + 1 - k,
{
    if !(k < 0 || k + pat.len() > s.len()) && !occurs_at(s, pat, k) {
        lemma_find_from_occurs(s, pat, k + 1);
    }
}

/// The three places a container id is looked for in a cgroup path, in
/// order: after "docker-", after "docker/", after "libpod-".
pub open spec fn path_container(path: Seq<char>) -> Option<Seq<char>> {
    match container_hash(path, "docker-"@) {
        Some(h) => Some(h),
        None => match container_hash(path, "docker/"@) {
            Some(h) => Some(h),
            None => container_hash(path, "libpod-"@),
        },
    }
}

/// The container id found in the first cgroup path that names one.
pub open spec fn container_of(paths: Seq<String>) -> Option<Seq<char>>
    decreases paths.len(),
{
    if paths.len() == 0 {
        None
    } else {
        match path_container(paths[0]@) {
            Some(h) => Some(h),
            None => container_of(paths.drop_first()),
        }
    }
}

/// The container (Docker or Podman) that a process with these cgroup paths
/// runs in; none when the cgroups could not be read.
pub fn detect_container(cgroups: &Option<Vec<String>>) -> (r: Option<String>)
    ensures
        match cgroups {
            Some(paths) => opt_text(r) == container_of(paths@),
            None => r is None,
        },
{
    let paths = match cgroups {
        Some(p) => p,
        None => {
            return None;
        },
    };
    let mut i: usize = 0;
    assert(paths@.skip(0) == paths@);
    while i < paths.len()
        invariant
            i <= paths@.len(),
            *cgroups == Some(*paths),
            container_of(paths@) == container_of(paths@.skip(i as int)),
        decreases paths.len() - i,
    {
        assert(paths@.skip(i as int).drop_first() == paths@.skip(i + 1));
        assert(paths@.skip(i as int)[0] == paths@[i as int]);
        let path = paths[i].as_str();
        assert(path@ == paths@.skip(i as int)[0]@);
        // Docker: /docker/<hash> or /system.slice/docker-<hash>.scope
        match extract_container_hash(path, "docker-") {
            Some(h) => {
                return Some(h);
            },
            None => {},
        }
        match extract_container_hash(path, "docker/") {
            Some(h) => {
                return Some(h);
            },
            None => {},
        }
        // Podman: /libpod-<hash>.scope
        match extract_container_hash(path, "libpod-") {
            Some(h) => {
                return Some(h);
            },
            None => {},
        }
        i = i + 1;
    }
    None
}

/// The user name of `uid`: the name found for it, or its number.
pub fn resolve_username(uid: u32, found: Option<String>) -> (r: String)
    ensures
        r@ == (match found {
            Some(n) => n@,
            None => decimal(uid as nat),
        }),
{
    match found {
        Some(n) => n,
        None => u64_text(uid as u64),
    }
}

/// What was read of one process for its detail pane. Each optional part is
/// `None` when it could not be read.
#[derive(Debug)]
pub struct ProcessReading {
    pub comm: String,
    pub num_threads: i64,
    pub cmdline: Option<Vec<String>>,
    pub cwd: Option<String>,
    pub environ: Option<Vec<(String, String)>>,
    pub fd_count: Option<usize>,
    pub cgroups: Option<Vec<String>>,
    /// Resident set size, in pages.
    pub resident_pages: Option<u64>,
}

/// The resident memory in bytes, when the page count is known.
pub open spec fn rss_bytes(pages: Option<u64>, page_size: u64) -> Option<u64> {
    match pages {
        Some(n) => Some((n * page_size) as u64),
        None => None,
    }
}

/// The detail of process `pid` from what was read of it (`None` when the
/// process or its status could not be read), from the process list scanned
/// for its children, and from the system's page size.
pub fn load_process_detail(
    pid: i32,
    reading: Option<ProcessReading>,
    procs: &Option<Vec<ProcessStat>>,
    page_size: u64,
) -> (r: Option<ProcessDetail>)
    requires
        reading matches Some(rd) ==> (rd.resident_pages matches Some(n) ==> n * page_size
            <= u64::MAX),
    ensures
        match reading {
            None => r is None,
            Some(rd) => match r {
                None => false,
                Some(d) => {
                    &&& d.pid == pid
                    &&& d.name == rd.comm
                    &&& d.cmdline@ == (match rd.cmdline {
                        Some(v) => v@,
                        None => Seq::empty(),
                    })
                    &&& d.cwd == rd.cwd
                    &&& d.environ@ == (match rd.environ {
                        Some(v) => v@,
                        None => Seq::empty(),
                    })
                    &&& d.open_fds == (match rd.fd_count {
                        Some(n) => n,
                        None => 0,
                    })
                    &&& d.children@ == (match procs {
                        Some(ps) => children_in(pid, ps@),
                        None => Seq::empty(),
                    })
                    &&& opt_text(d.container_id) == (match rd.cgroups {
                        Some(paths) => container_of(paths@),
                        None => None,
                    })
                    &&& d.memory_rss_bytes == rss_bytes(rd.resident_pages, page_size)
                    &&& d.threads == Some(rd.num_threads as u32)
                },
            },
        },
{
    let rd = match reading {
        Some(rd) => rd,
        None => {
            return None;
        },
    };
    let children = load_children(pid, procs);
    let container_id = detect_container(&rd.cgroups);
    let memory_rss_bytes = match rd.resident_pages {
        Some(n) => Some(n * page_size),
        None => None,
    };
    let threads = Some(rd.num_threads as u32);
    Some(
        ProcessDetail {
            pid,
            name: rd.comm,
            cmdline: match rd.cmdline {
                Some(v) => v,
                None => Vec::new(),
            },
            cwd: rd.cwd,
            environ: match rd.environ {
                Some(v) => v,
                None => Vec::new(),
            },
            open_fds: match rd.fd_count {
                Some(n) => n,
                None => 0,
            },
            children,
            container_id,
            memory_rss_bytes,
            threads,
        },
    )
}

} // verus!
