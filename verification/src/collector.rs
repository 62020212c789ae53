//! Joining listening sockets with their owning processes and users.
use std::collections::HashMap;
use vstd::prelude::*;
use crate::process::resolve_username;
use crate::scanner::RawSocket;
use crate::text::decimal;
use crate::types::{PortEntry, ProcessInfo};

verus! {

broadcast use {vstd::string::group_string_axioms, vstd::std_specs::hash::group_hash_axioms};

/// The user name shown for `uid`: the name found for it, or its number.
pub open spec fn user_text(uid: u32, found: Option<String>) -> Seq<char> {
    match found {
        Some(n) => n@,
        None => decimal(uid as nat),
    }
}

/// The entry for a socket, given the owner map and the name found for its
/// user.
pub open spec fn entry_for(s: RawSocket, owners: Map<u64, ProcessInfo>, found: Option<String>, e: PortEntry) -> bool {
    &&& e.protocol == s.protocol
    &&& e.local_addr == s.local_addr
    &&& e.port == s.port
    &&& e.remote_port == s.remote_port
    &&& e.state == s.state
    &&& e.inode == s.inode
    &&& e.uid == s.uid
    &&& e.username@ == user_text(s.uid, found)
    &&& e.process == (if owners.contains_key(s.inode) {
        Some(owners[s.inode])
    } else {
        None
    })
}

/// Collect all listening port entries with associated process info: one
/// entry per socket, in order, with the owner of its inode (if any) and the
/// name of its user (`user_names[i]` is what the lookup of socket `i`'s uid
/// found).
pub fn collect_port_entries(
    sockets: &Vec<RawSocket>,
    inode_map: &HashMap<u64, ProcessInfo>,
    user_names: &Vec<Option<String>>,
) -> (r: Vec<PortEntry>)
    requires
        user_names@.len() == sockets@.len(),
    ensures
        r@.len() == sockets@.len(),
        forall|i: int|
            0 <= i < r@.len() ==> entry_for(sockets@[i], inode_map@, user_names@[i], #[trigger] r@[i]),
{
    let mut entries: Vec<PortEntry> = Vec::new();
    for i in 0..sockets.len()
        invariant
            user_names@.len() == sockets@.len(),
            entries@.len() == i,
            forall|k: int|
                0 <= k < i ==> entry_for(sockets@[k], inode_map@, user_names@[k], #[trigger] entries@[k]),
    {
        let raw = &sockets[i];
        let process = match inode_map.get(&raw.inode) {
            Some(p) => Some(p.clone()),
            None => None,
        };
        let found = match &user_names[i] {
            Some(n) => Some(n.clone()),
            None => None,
        };
        let username = resolve_username(raw.uid, found);
        entries.push(
            PortEntry {
                protocol: raw.protocol,
                local_addr: raw.local_addr.clone(),
                port: raw.port,
                remote_port: raw.remote_port,
                state: raw.state,
                inode: raw.inode,
                uid: raw.uid,
                username,
                process,
            },
        );
    }
    entries
}

} // verus!
