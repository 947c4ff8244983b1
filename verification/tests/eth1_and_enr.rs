use lighthouse::enr::{
    attestation_bitfield, build_enr, compare_enr, custody_group_count, decode_bitvector, eth2,
    sync_committee_bitfield, use_or_load_enr, EnrChoice, EnrConfig, EnrFields, EnrForkId, EnrSpec, ListenPorts,
};
use lighthouse::lighthouse::{compute_empty_deposit_root, Eth1Block, FinalizedExecutionBlock};

fn hex(s: &str) -> Vec<u8> {
    (0..s.len()).step_by(2).map(|i| u8::from_str_radix(&s[i..i + 2], 16).unwrap()).collect()
}

#[test]
fn empty_deposit_root() {
    assert_eq!(compute_empty_deposit_root(), hex("d70a234731285c6804c2a4f56711ddb8c82c99740f207854891028af34e27e5e"));
}

#[test]
fn eth1_block_conversions() {
    let b = Eth1Block { hash: vec![1; 32], timestamp: 5, number: 9, deposit_root: Some(vec![2; 32]), deposit_count: Some(3) };
    let d = b.eth1_data().unwrap();
    assert_eq!(d.deposit_root, vec![2; 32]);
    assert_eq!(d.deposit_count, 3);
    assert_eq!(d.block_hash, vec![1; 32]);
    let partial = Eth1Block { hash: vec![1; 32], timestamp: 5, number: 9, deposit_root: None, deposit_count: Some(3) };
    assert!(partial.eth1_data().is_none());
    let bare = Eth1Block { hash: vec![1; 32], timestamp: 5, number: 9, deposit_root: None, deposit_count: None };
    let f = FinalizedExecutionBlock::from_eth1_block(bare);
    assert_eq!(f.deposit_count, 0);
    assert_eq!(f.deposit_root, compute_empty_deposit_root());
    assert_eq!(f.block_height, 9);
}

fn config(subscribe_all: bool) -> EnrConfig {
    EnrConfig {
        ip4: None,
        ip6: None,
        udp4_port: Some(9000),
        udp6_port: None,
        tcp4_port: None,
        tcp6_port: None,
        quic4_port: None,
        quic6_port: None,
        private: false,
        disable_quic_support: false,
        listen_v4: Some(ListenPorts { tcp_port: 9000, quic_port: 9001 }),
        listen_v6: None,
        subscribe_all_data_column_subnets: subscribe_all,
    }
}

fn fulu_spec() -> EnrSpec {
    EnrSpec {
        subnet_bitfield_length: 64,
        sync_committee_subnet_count: 4,
        peer_das_scheduled: true,
        custody_requirement: 4,
        number_of_custody_groups: 128,
    }
}

fn fork_id() -> EnrForkId {
    EnrForkId { fork_digest: [1, 2, 3, 4], next_fork_version: [5, 6, 7, 8], next_fork_epoch: u64::MAX }
}

#[test]
fn custody_group_count_default() {
    let spec = fulu_spec();
    let enr = build_enr(&config(false), &fork_id(), &spec);
    assert_eq!(custody_group_count(enr.cgc, &spec).unwrap(), spec.custody_requirement);
}

#[test]
fn custody_group_count_all() {
    let spec = fulu_spec();
    let enr = build_enr(&config(true), &fork_id(), &spec);
    assert_eq!(custody_group_count(enr.cgc, &spec).unwrap(), spec.number_of_custody_groups);
}

#[test]
fn test_encode_decode_eth2_enr() {
    let spec = EnrSpec { peer_das_scheduled: false, ..fulu_spec() };
    let default_fork_id = EnrForkId { fork_digest: [0; 4], next_fork_version: [0; 4], next_fork_epoch: 0 };
    let enr = build_enr(&config(false), &default_fork_id, &spec);
    // every eth2 field decodes
    eth2(enr.eth2.as_ref()).unwrap();
    attestation_bitfield(enr.attnets.as_ref(), spec.subnet_bitfield_length).unwrap();
    sync_committee_bitfield(enr.syncnets.as_ref(), spec.sync_committee_subnet_count).unwrap();
    assert_eq!(enr.eth2.unwrap(), vec![0u8; 16]);
    assert_eq!(enr.attnets.unwrap(), vec![0u8; 8]);
    assert_eq!(enr.syncnets.unwrap(), vec![0u8; 1]);
    assert_eq!(enr.cgc, None);
}

#[test]
fn test_eth2_enr_encodings() {
    // The eth2, attnets and syncnets fields of a record seen on the network.
    let eth2_field = hex("8fb785316000003800e1f50500000000");
    let attnets = hex("0000000000000000");
    let syncnets = hex("00");
    let (digest, version, epoch) = eth2(Some(&eth2_field)).unwrap();
    assert_eq!(digest, hex("8fb78531"));
    assert_eq!(version, hex("60000038"));
    assert_eq!(epoch, hex("00e1f50500000000"));
    assert_eq!(attestation_bitfield(Some(&attnets), 64).unwrap(), vec![false; 64]);
    assert_eq!(sync_committee_bitfield(Some(&syncnets), 4).unwrap(), vec![false; 4]);
}

#[test]
fn enr_ports_and_quic() {
    let spec = fulu_spec();
    let enr = build_enr(&config(false), &fork_id(), &spec);
    assert_eq!(enr.tcp4, Some(9000));
    assert_eq!(enr.quic4, Some(9001));
    assert_eq!(enr.udp4, Some(9000));
    assert_eq!(enr.tcp6, None);
    assert!(enr.client_info);
    let no_quic = EnrConfig { disable_quic_support: true, private: true, ..config(false) };
    let enr = build_enr(&no_quic, &fork_id(), &spec);
    assert_eq!(enr.quic4, None);
    assert!(!enr.client_info);
    let zero = EnrConfig { listen_v4: Some(ListenPorts { tcp_port: 0, quic_port: 0 }), ..config(false) };
    assert_eq!(build_enr(&zero, &fork_id(), &spec).tcp4, None);
}

fn fields() -> EnrFields {
    build_enr(&config(false), &fork_id(), &fulu_spec())
}

#[test]
fn stored_enr_comparison() {
    let local = fields();
    let mut disk = fields();
    disk.ip4 = Some(0x7f000001);
    assert!(compare_enr(&local, &disk));
    disk.tcp4 = Some(1);
    assert!(!compare_enr(&local, &disk));
    let mut other_fork = fields();
    other_fork.eth2 = Some(vec![0; 16]);
    assert!(!compare_enr(&local, &other_fork));
    assert_eq!(use_or_load_enr(true, true, 4), EnrChoice::UseDisk);
    assert_eq!(use_or_load_enr(true, false, 4), EnrChoice::BumpSequence(5));
    assert_eq!(use_or_load_enr(true, false, u64::MAX), EnrChoice::SequenceTooLarge);
    assert_eq!(use_or_load_enr(false, false, 4), EnrChoice::KeepLocal);
    assert_eq!(custody_group_count(None, &fulu_spec()), Err("ENR custody group count non-existent"));
    assert_eq!(custody_group_count(Some(200), &fulu_spec()), Err("Invalid custody group count in ENR"));
}

#[test]
fn built_enr_decodes_back() {
    let enr = build_enr(&config(false), &fork_id(), &fulu_spec());
    let (digest, version, epoch) = eth2(enr.eth2.as_ref()).unwrap();
    assert_eq!(digest, vec![1, 2, 3, 4]);
    assert_eq!(version, vec![5, 6, 7, 8]);
    assert_eq!(epoch, vec![0xff; 8]);
    assert_eq!(attestation_bitfield(enr.attnets.as_ref(), 64).unwrap(), vec![false; 64]);
    assert_eq!(sync_committee_bitfield(enr.syncnets.as_ref(), 4).unwrap(), vec![false; 4]);
}

#[test]
fn enr_field_decoding_errors() {
    assert_eq!(eth2(None), Err("ENR has no eth2 field"));
    assert_eq!(eth2(Some(&vec![0u8; 15])), Err("Could not decode EnrForkId"));
    assert_eq!(attestation_bitfield(None, 64), Err("ENR attestation bitfield non-existent"));
    assert_eq!(attestation_bitfield(Some(&vec![0u8; 7]), 64), Err("Could not decode the ENR attnets bitfield"));
    assert_eq!(sync_committee_bitfield(None, 4), Err("ENR sync committee bitfield non-existent"));
    // a bit beyond the fourth is set
    assert_eq!(sync_committee_bitfield(Some(&vec![0x10u8]), 4), Err("Could not decode the ENR syncnets bitfield"));
}

#[test]
fn bitvector_bit_order() {
    assert_eq!(decode_bitvector(&vec![0x05u8], 4), Some(vec![true, false, true, false]));
    assert_eq!(decode_bitvector(&vec![0x01u8, 0x80u8], 16).unwrap()[15], true);
    assert_eq!(decode_bitvector(&vec![0x01u8, 0x80u8], 16).unwrap()[8], false);
    assert_eq!(decode_bitvector(&vec![], 0), None);
    // a vector of no bits is a single zero byte
    assert_eq!(decode_bitvector(&vec![0u8], 0), Some(vec![]));
    assert_eq!(decode_bitvector(&vec![1u8], 0), None);
    let none = EnrSpec { subnet_bitfield_length: 0, ..fulu_spec() };
    let enr = build_enr(&config(false), &fork_id(), &none);
    assert_eq!(enr.attnets.clone().unwrap(), vec![0u8]);
    assert_eq!(attestation_bitfield(enr.attnets.as_ref(), 0).unwrap(), Vec::<bool>::new());
}
