//! What the node's ENR says of it, and when a stored ENR can stand in for
//! the one just built.
use vstd::prelude::*;
use crate::beacon_state::{bytes_eq, copy_bytes};
use crate::signing::{array4_bytes, concat, le_bytes};

verus! {

/// The ports a transport listens on.
#[derive(Clone, Copy, Debug, PartialEq, Eq, Structural)]
pub struct ListenPorts {
    pub tcp_port: u16,
    pub quic_port: u16,
}

/// What the network configuration says of the ENR.
#[derive(Clone, Copy, Debug, PartialEq, Eq, Structural)]
pub struct EnrConfig {
    /// The IPv4 address to announce, as a number.
    pub ip4: Option<u32>,
    /// The IPv6 address to announce, as a number.
    pub ip6: Option<u128>,
    pub udp4_port: Option<u16>,
    pub udp6_port: Option<u16>,
    pub tcp4_port: Option<u16>,
    pub tcp6_port: Option<u16>,
    pub quic4_port: Option<u16>,
    pub quic6_port: Option<u16>,
    /// Whether the client keeps its name and version to itself.
    pub private: bool,
    pub disable_quic_support: bool,
    pub listen_v4: Option<ListenPorts>,
    pub listen_v6: Option<ListenPorts>,
    pub subscribe_all_data_column_subnets: bool,
}

/// The fork of the network as the ENR announces it.
#[derive(Clone, Copy, Debug)]
pub struct EnrForkId {
    pub fork_digest: [u8; 4],
    pub next_fork_version: [u8; 4],
    pub next_fork_epoch: u64,
}

/// The SSZ bytes of the fork id: digest, next version, next epoch.
pub open spec fn enr_fork_id_bytes(f: EnrForkId) -> Seq<u8> {
    f.fork_digest@ + f.next_fork_version@ + le_bytes(f.next_fork_epoch as nat, 8)
}

/// The chain constants that the ENR reads.
#[derive(Clone, Copy, Debug, PartialEq, Eq, Structural)]
pub struct EnrSpec {
    /// Bits of the attestation subnet bitfield.
    pub subnet_bitfield_length: u64,
    /// Bits of the sync committee subnet bitfield.
    pub sync_committee_subnet_count: u64,
    pub peer_das_scheduled: bool,
    pub custody_requirement: u64,
    pub number_of_custody_groups: u64,
}

/// The fields of an ENR.
pub struct EnrFields {
    pub ip4: Option<u32>,
    pub ip6: Option<u128>,
    pub udp4: Option<u16>,
    pub udp6: Option<u16>,
    pub tcp4: Option<u16>,
    pub tcp6: Option<u16>,
    pub quic4: Option<u16>,
    pub quic6: Option<u16>,
    pub client_info: bool,
    pub eth2: Option<Vec<u8>>,
    pub attnets: Option<Vec<u8>>,
    pub syncnets: Option<Vec<u8>>,
    pub cgc: Option<u64>,
}

/// The port to announce: the configured one, else the listening one where
/// it is not zero.
pub open spec fn port_or_listening(configured: Option<u16>, listening: Option<u16>) -> Option<u16> {
    match configured {
        Some(p) => Some(p),
        None => match listening {
            Some(p) => if p != 0 {
                Some(p)
            } else {
                None
            },
            None => None,
        },
    }
}

fn port_or_listening_exec(configured: Option<u16>, listening: Option<u16>) -> (r: Option<u16>)
    ensures
        r == port_or_listening(configured, listening),
{
    match configured {
        Some(p) => Some(p),
        None => match listening {
            Some(p) => if p != 0 {
                Some(p)
            } else {
                None
            },
            None => None,
        },
    }
}

pub open spec fn listen_tcp(l: Option<ListenPorts>) -> Option<u16> {
    match l {
        Some(p) => Some(p.tcp_port),
        None => None,
    }
}

pub open spec fn listen_quic(l: Option<ListenPorts>) -> Option<u16> {
    match l {
        Some(p) => Some(p.quic_port),
        None => None,
    }
}

/// The bytes that an SSZ bit vector of `bits` bits takes: one per eight
/// bits, and one for a vector of no bits.
pub open spec fn bitvector_byte_len(bits: u64) -> nat {
    if bits == 0 {
        1
    } else {
        ((bits + 7) / 8) as nat
    }
}

/// The bytes of an empty bitfield of `bits` bits.
pub open spec fn empty_bitfield(bits: u64) -> Seq<u8> {
    Seq::new(bitvector_byte_len(bits), |i: int| 0u8)
}

/// The custody group count that the node announces: all groups where it
/// subscribes to all column subnets, else the required ones.
pub open spec fn announced_custody_group_count(config: EnrConfig, spec: EnrSpec) -> u64 {
    if config.subscribe_all_data_column_subnets {
        spec.number_of_custody_groups
    } else {
        spec.custody_requirement
    }
}

/// Builds the fields of the local ENR: the configured addresses, UDP ports,
/// and TCP ports (falling back to the listening ones), the QUIC ports unless
/// QUIC is off, the client unless private, the fork id, empty subnet
/// bitfields, and the custody group count once PeerDAS is scheduled.
pub fn build_enr(config: &EnrConfig, enr_fork_id: &EnrForkId, spec: &EnrSpec) -> (r: EnrFields)
    requires
        spec.subnet_bitfield_length + 7 <= u64::MAX,
        spec.sync_committee_subnet_count + 7 <= u64::MAX,
    ensures
        r.ip4 == config.ip4,
        r.ip6 == config.ip6,
        r.udp4 == config.udp4_port,
        r.udp6 == config.udp6_port,
        r.client_info == !config.private,
        r.quic4 == (if config.disable_quic_support {
            None
        } else {
            port_or_listening(config.quic4_port, listen_quic(config.listen_v4))
        }),
        r.quic6 == (if config.disable_quic_support {
            None
        } else {
            port_or_listening(config.quic6_port, listen_quic(config.listen_v6))
        }),
        r.tcp4 == port_or_listening(config.tcp4_port, listen_tcp(config.listen_v4)),
        r.tcp6 == port_or_listening(config.tcp6_port, listen_tcp(config.listen_v6)),
        r.eth2 matches Some(b) && b@ == enr_fork_id_bytes(*enr_fork_id),
        r.attnets matches Some(b) && b@ == empty_bitfield(spec.subnet_bitfield_length),
        r.syncnets matches Some(b) && b@ == empty_bitfield(spec.sync_committee_subnet_count),
        r.cgc == (if spec.peer_das_scheduled {
            Some(announced_custody_group_count(*config, *spec))
        } else {
            None
        }),
{
    let listen_quic4 = match config.listen_v4 {
        Some(p) => Some(p.quic_port),
        None => None,
    };
    let listen_quic6 = match config.listen_v6 {
        Some(p) => Some(p.quic_port),
        None => None,
    };
    let listen_tcp4 = match config.listen_v4 {
        Some(p) => Some(p.tcp_port),
        None => None,
    };
    let listen_tcp6 = match config.listen_v6 {
        Some(p) => Some(p.tcp_port),
        None => None,
    };
    let (quic4, quic6) = if config.disable_quic_support {
        (None, None)
    } else {
        (port_or_listening_exec(config.quic4_port, listen_quic4), port_or_listening_exec(config.quic6_port, listen_quic6))
    };
    let digest = array4_bytes(&enr_fork_id.fork_digest);
    let version = array4_bytes(&enr_fork_id.next_fork_version);
    let epoch8 = ssz_u64_bytes(enr_fork_id.next_fork_epoch);
    let eth2 = concat(&concat(&digest, &version), &epoch8);
    let attnets_len = bitvector_len(spec.subnet_bitfield_length);
    let syncnets_len = bitvector_len(spec.sync_committee_subnet_count);
    EnrFields {
        ip4: config.ip4,
        ip6: config.ip6,
        udp4: config.udp4_port,
        udp6: config.udp6_port,
        tcp4: port_or_listening_exec(config.tcp4_port, listen_tcp4),
        tcp6: port_or_listening_exec(config.tcp6_port, listen_tcp6),
        quic4,
        quic6,
        client_info: !config.private,
        eth2: Some(eth2),
        attnets: Some(zero_bytes_u64(attnets_len)),
        syncnets: Some(zero_bytes_u64(syncnets_len)),
        cgc: if spec.peer_das_scheduled {
            Some(
                if config.subscribe_all_data_column_subnets {
                    spec.number_of_custody_groups
                } else {
                    spec.custody_requirement
                },
            )
        } else {
            None
        },
    }
}

/// `ssz::Encode::as_ssz_bytes` on a `u64`: its eight little-endian bytes.
#[verifier::external_body]
fn ssz_u64_bytes(x: u64) -> (r: Vec<u8>)
    ensures
        r@ == le_bytes(x as nat, 8),
{
    ssz::Encode::as_ssz_bytes(&x)
}

fn bitvector_len(bits: u64) -> (r: u64)
    requires
        bits + 7 <= u64::MAX,
    ensures
        r == bitvector_byte_len(bits),
{
    if bits == 0 {
        1
    } else {
        (bits + 7) / 8
    }
}

fn zero_bytes_u64(n: u64) -> (r: Vec<u8>)
    ensures
        r@ == Seq::new(n as nat, |i: int| 0u8),
{
    let mut r: Vec<u8> = Vec::new();
    let mut i: u64 = 0;
    while i < n
        invariant
            i <= n,
            r@ == Seq::new(i as nat, |j: int| 0u8),
        decreases n - i,
    {
        r.push(0u8);
        i = i + 1;
        assert(r@ =~= Seq::new(i as nat, |j: int| 0u8));
    }
    r
}

pub open spec fn opt_bytes(b: Option<Vec<u8>>) -> Option<Seq<u8>> {
    match b {
        Some(v) => Some(v@),
        None => None,
    }
}

fn opt_bytes_eq(a: &Option<Vec<u8>>, b: &Option<Vec<u8>>) -> (r: bool)
    ensures
        r == (opt_bytes(*a) == opt_bytes(*b)),
{
    match (a, b) {
        (Some(x), Some(y)) => bytes_eq(x, y),
        (None, None) => true,
        _ => false,
    }
}

/// The stored ENR stands in for the local one when its addresses agree
/// where the local one sets them, its ports, fork, subnets and custody
/// group count are the same, and its UDP ports agree where the local one
/// sets them.
pub open spec fn enr_matches(local: EnrFields, disk: EnrFields) -> bool {
    &&& (local.ip4 is None || local.ip4 == disk.ip4)
    &&& (local.ip6 is None || local.ip6 == disk.ip6)
    &&& local.tcp4 == disk.tcp4
    &&& local.tcp6 == disk.tcp6
    &&& local.quic4 == disk.quic4
    &&& local.quic6 == disk.quic6
    &&& opt_bytes(local.eth2) == opt_bytes(disk.eth2)
    &&& (local.udp4 is None || local.udp4 == disk.udp4)
    &&& (local.udp6 is None || local.udp6 == disk.udp6)
    &&& opt_bytes(local.attnets) == opt_bytes(disk.attnets)
    &&& opt_bytes(local.syncnets) == opt_bytes(disk.syncnets)
    &&& local.cgc == disk.cgc
}

/// Whether the ENR kept on disk can be used in place of the local one.
pub fn compare_enr(local: &EnrFields, disk: &EnrFields) -> (r: bool)
    ensures
        r == enr_matches(*local, *disk),
{
    (local.ip4.is_none() || local.ip4 == disk.ip4) && (local.ip6.is_none() || local.ip6 == disk.ip6) && local.tcp4
        == disk.tcp4 && local.tcp6 == disk.tcp6 && local.quic4 == disk.quic4 && local.quic6 == disk.quic6
        && opt_bytes_eq(&local.eth2, &disk.eth2) && (local.udp4.is_none() || local.udp4 == disk.udp4) && (
    local.udp6.is_none() || local.udp6 == disk.udp6) && opt_bytes_eq(&local.attnets, &disk.attnets)
        && opt_bytes_eq(&local.syncnets, &disk.syncnets) && local.cgc == disk.cgc
}

/// What the node does with the ENR found on disk.
#[derive(Clone, Copy, Debug, PartialEq, Eq, Structural)]
pub enum EnrChoice {
    /// Use the stored ENR.
    UseDisk,
    /// Keep the local ENR, with this sequence number.
    BumpSequence(u64),
    /// Keep the local ENR as it is.
    KeepLocal,
    /// The stored sequence number cannot be exceeded.
    SequenceTooLarge,
}

/// A stored ENR of the same node is used if it matches; otherwise the local
/// ENR takes the next sequence number. An ENR of another node is ignored.
pub fn use_or_load_enr(same_node_id: bool, matches: bool, disk_seq: u64) -> (r: EnrChoice)
    ensures
        r == (if !same_node_id {
            EnrChoice::KeepLocal
        } else if matches {
            EnrChoice::UseDisk
        } else if disk_seq == u64::MAX {
            EnrChoice::SequenceTooLarge
        } else {
            EnrChoice::BumpSequence((disk_seq + 1) as u64)
        }),
{
    if !same_node_id {
        EnrChoice::KeepLocal
    } else if matches {
        EnrChoice::UseDisk
    } else if disk_seq == u64::MAX {
        EnrChoice::SequenceTooLarge
    } else {
        EnrChoice::BumpSequence(disk_seq + 1)
    }
}

/// The custody group count of an ENR, which must lie between the required
/// count and the number of groups.
pub fn custody_group_count(cgc: Option<u64>, spec: &EnrSpec) -> (r: Result<u64, &'static str>)
    ensures
        match cgc {
            None => r matches Err(m) && m@ == "ENR custody group count non-existent"@,
            Some(n) => if spec.custody_requirement <= n <= spec.number_of_custody_groups {
                r == Ok::<u64, &'static str>(n)
            } else {
                r matches Err(m) && m@ == "Invalid custody group count in ENR"@
            },
        },
{
    match cgc {
        None => Err("ENR custody group count non-existent"),
        Some(n) => if spec.custody_requirement <= n && n <= spec.number_of_custody_groups {
            Ok(n)
        } else {
            Err("Invalid custody group count in ENR")
        },
    }
}

/// The bits of an SSZ bit vector of `n` bits: exactly the bytes that `n`
/// bits take, with no bit set beyond the `n`th (a vector of no bits is one
/// zero byte); bit `i` is bit `i % 8` of byte `i / 8`.
pub open spec fn bitvector_bits(bytes: Seq<u8>, n: u64) -> Option<Seq<bool>> {
    if bytes.len() != bitvector_byte_len(n) {
        None
    } else if n == 0 && bytes[0] != 0 {
        None
    } else if n % 8 != 0 && bytes.last() & !(0xffu8 >> ((8 - n % 8) as u8)) != 0 {
        None
    } else {
        Some(Seq::new(n as nat, |i: int| (bytes[i / 8] >> ((i % 8) as u8)) & 1u8 == 1u8))
    }
}

/// Decodes an SSZ bit vector of `n` bits.
pub fn decode_bitvector(bytes: &Vec<u8>, n: u64) -> (r: Option<Vec<bool>>)
    requires
        n + 7 <= u64::MAX,
    ensures
        match bitvector_bits(bytes@, n) {
            Some(bits) => r matches Some(v) && v@ == bits,
            None => r is None,
        },
{
    if bytes.len() as u64 != bitvector_len(n) {
        return None;
    }
    if n == 0 {
        if bytes[0] != 0 {
            return None;
        }
        let r: Vec<bool> = Vec::new();
        assert(r@ =~= Seq::new(0, |i: int| (bytes@[i / 8] >> ((i % 8) as u8)) & 1u8 == 1u8));
        return Some(r);
    }
    if n % 8 != 0 {
        let last = bytes[bytes.len() - 1];
        let mask = 0xffu8 >> ((8 - n % 8) as u8);
        if last & !mask != 0 {
            return None;
        }
    }
    let mut r: Vec<bool> = Vec::new();
    let mut i: u64 = 0;
    while i < n
        invariant
            n > 0,
            bytes.len() == (n + 7) / 8,
            i <= n,
            r@ == Seq::new(i as nat, |j: int| (bytes@[j / 8] >> ((j % 8) as u8)) & 1u8 == 1u8),
        decreases n - i,
    {
        assert(i / 8 < bytes.len()) by (nonlinear_arith)
            requires
                i < n,
                bytes.len() == (n + 7) / 8,
        ;
        let b = bytes[(i / 8) as usize];
        r.push((b >> ((i % 8) as u8)) & 1u8 == 1u8);
        i = i + 1;
        assert(r@ =~= Seq::new(i as nat, |j: int| (bytes@[j / 8] >> ((j % 8) as u8)) & 1u8 == 1u8));
    }
    Some(r)
}

/// The fork id in SSZ bytes: exactly sixteen bytes.
pub open spec fn decoded_fork_id(bytes: Seq<u8>) -> Option<(Seq<u8>, Seq<u8>, Seq<u8>)> {
    if bytes.len() != 16 {
        None
    } else {
        Some((bytes.subrange(0, 4), bytes.subrange(4, 8), bytes.subrange(8, 16)))
    }
}

/// The `eth2` field of an ENR: the fork digest, the next fork version, and
/// the little-endian bytes of the next fork epoch.
pub fn eth2(field: Option<&Vec<u8>>) -> (r: Result<(Vec<u8>, Vec<u8>, Vec<u8>), &'static str>)
    ensures
        match field {
            None => r matches Err(m) && m@ == "ENR has no eth2 field"@,
            Some(b) => match decoded_fork_id(b@) {
                None => r matches Err(m) && m@ == "Could not decode EnrForkId"@,
                Some((d, v, e)) => r matches Ok((d2, v2, e2)) && d2@ == d && v2@ == v && e2@ == e,
            },
        },
{
    match field {
        None => Err("ENR has no eth2 field"),
        Some(b) => {
            if b.len() != 16 {
                return Err("Could not decode EnrForkId");
            }
            let mut d: Vec<u8> = Vec::new();
            let mut v: Vec<u8> = Vec::new();
            let mut e: Vec<u8> = Vec::new();
            let mut i: usize = 0;
            while i < 16
                invariant
                    b.len() == 16,
                    i <= 16,
                    d@ == b@.subrange(0, if i < 4 { i as int } else { 4 }),
                    v@ == b@.subrange(4, if i < 4 { 4 } else if i < 8 { i as int } else { 8 }),
                    e@ == b@.subrange(8, if i < 8 { 8 } else { i as int }),
                decreases 16 - i,
            {
                if i < 4 {
                    d.push(b[i]);
                } else if i < 8 {
                    v.push(b[i]);
                } else {
                    e.push(b[i]);
                }
                i = i + 1;
                assert(d@ =~= b@.subrange(0, if i < 4 { i as int } else { 4 }));
                assert(v@ =~= b@.subrange(4, if i < 4 { 4 } else if i < 8 { i as int } else { 8 }));
                assert(e@ =~= b@.subrange(8, if i < 8 { 8 } else { i as int }));
            }
            Ok((d, v, e))
        },
    }
}

/// The attestation subnet bitfield of an ENR, of `bits` bits.
pub fn attestation_bitfield(field: Option<&Vec<u8>>, bits: u64) -> (r: Result<Vec<bool>, &'static str>)
    requires
        bits + 7 <= u64::MAX,
    ensures
        match field {
            None => r matches Err(m) && m@ == "ENR attestation bitfield non-existent"@,
            Some(b) => match bitvector_bits(b@, bits) {
                None => r matches Err(m) && m@ == "Could not decode the ENR attnets bitfield"@,
                Some(v) => r matches Ok(w) && w@ == v,
            },
        },
{
    match field {
        None => Err("ENR attestation bitfield non-existent"),
        Some(b) => match decode_bitvector(b, bits) {
            None => Err("Could not decode the ENR attnets bitfield"),
            Some(v) => Ok(v),
        },
    }
}

/// The sync committee subnet bitfield of an ENR, of `bits` bits.
pub fn sync_committee_bitfield(field: Option<&Vec<u8>>, bits: u64) -> (r: Result<Vec<bool>, &'static str>)
    requires
        bits + 7 <= u64::MAX,
    ensures
        match field {
            None => r matches Err(m) && m@ == "ENR sync committee bitfield non-existent"@,
            Some(b) => match bitvector_bits(b@, bits) {
                None => r matches Err(m) && m@ == "Could not decode the ENR syncnets bitfield"@,
                Some(v) => r matches Ok(w) && w@ == v,
            },
        },
{
    match field {
        None => Err("ENR sync committee bitfield non-existent"),
        Some(b) => match decode_bitvector(b, bits) {
            None => Err("Could not decode the ENR syncnets bitfield"),
            Some(v) => Ok(v),
        },
    }
}

} // verus!
