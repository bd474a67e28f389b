//! Seal lifecycle, unseal offsets, health checks and shutdown, driven
//! through the scheduler with the cryptographic collaborator stubbed by the
//! test.

use sector_builder::checksum::calculate_checksum;
use sector_builder::error::SectorBuilderErr;
use sector_builder::kv_store::KvStore;
use sector_builder::metadata::{
    GetSealedSectorResult, PersistentAux, SealStatus, SealTicket, SealedSectorHealth, SectorClass,
};
use sector_builder::metadata_manager::SectorMetadataManager;
use sector_builder::scheduler::{PerformHealthCheck, Scheduler};
use sector_builder::worker::SealOutput;

fn new_scheduler(sector_size: u64, max_staged: u8) -> Scheduler {
    let m = SectorMetadataManager::initialize(
        KvStore::initialize(),
        SectorClass { sector_size, porep_proof_partitions: 2 },
        0,
        vec![0u8; 31],
        String::from("miner"),
        max_staged,
    )
    .unwrap();
    let ticket = SealTicket { block_height: 5, ticket_bytes: vec![1u8; 32] };
    Scheduler::start(m, ticket)
}

fn add_piece(s: &mut Scheduler, key: &str, n: u64) -> Result<u64, SectorBuilderErr> {
    let id = s.handle_add_piece_first(n)?;
    s.handle_add_piece_second(id, String::from(key), n, n)
}

fn stub_output(n_pieces: usize) -> SealOutput {
    SealOutput {
        comm_r: vec![2u8; 32],
        comm_d: vec![3u8; 32],
        p_aux: PersistentAux { comm_c: vec![4u8; 32], comm_r_last: vec![5u8; 32] },
        proof: vec![6u8; 192],
        comm_ps: vec![vec![7u8; 32]; n_pieces],
        piece_inclusion_proofs: vec![vec![8u8; 48]; n_pieces],
    }
}

#[test]
fn seal_failure_is_observable_not_fatal() {
    let mut s = new_scheduler(1024, 2);
    add_piece(&mut s, "a", 1016).unwrap();
    let protos = s.check_and_dispatch(false);
    assert_eq!(protos.len(), 1);
    assert_eq!(protos[0].sector_id, 1);
    // The worker reports a failure for sector 1.
    let r = s
        .handle_seal_result(1, Err(String::from("SNARK proving failed")))
        .unwrap();
    assert!(r.is_none());
    match s.handle_get_seal_status(1).unwrap() {
        SealStatus::Failed(reason) => assert_eq!(reason, "SNARK proving failed"),
        other => panic!("unexpected status {:?}", other),
    }
    // A snapshot reload reproduces the failure.
    let reloaded = SectorMetadataManager::initialize(
        s.m.kv_store.clone(),
        SectorClass { sector_size: 1024, porep_proof_partitions: 2 },
        0,
        vec![0u8; 31],
        String::from("miner"),
        2,
    )
    .unwrap();
    match &reloaded.state.staged.sectors[0].seal_status {
        SealStatus::Failed(reason) => assert_eq!(reason, "SNARK proving failed"),
        other => panic!("unexpected status {:?}", other),
    }
}

#[test]
fn unseal_round_trip_reads_back_the_piece_bytes() {
    // The test plays the disk and the unsealer: pieces are "written" into
    // an in-memory sector file at the offsets the engine computes, and the
    // stubbed unseal hands back the bytes at the computed range.
    let mut s = new_scheduler(1024, 2);
    let mut sector_file = vec![0u8; 1016];
    let content_j: Vec<u8> = (0..100u32).map(|x| x as u8).collect();
    let content_k: Vec<u8> = (0..500u32).map(|x| (x * 7) as u8).collect();

    let id = add_piece(&mut s, "j", 100).unwrap();
    let off_j = sector_builder::pieces::get_piece_start_byte(&vec![], 100) as usize;
    sector_file[off_j..off_j + 100].copy_from_slice(&content_j);

    assert_eq!(add_piece(&mut s, "k", 500).unwrap(), id);
    let off_k = sector_builder::pieces::get_piece_start_byte(&vec![100], 500) as usize;
    sector_file[off_k..off_k + 500].copy_from_slice(&content_k);
    assert_eq!(off_k, 512);

    // Seal the sector.
    let protos = s.check_and_dispatch(true);
    assert_eq!(protos.len(), 1);
    let checksum = calculate_checksum(&sector_file);
    let sealed = s
        .handle_seal_result(id, Ok((stub_output(2), checksum, sector_file.len() as u64)))
        .unwrap()
        .unwrap();
    assert_eq!(sealed.sector_id, id);
    assert_eq!(sealed.pieces.len(), 2);
    assert!(sealed.pieces.iter().all(|p| p.comm_p.is_some()));

    // Retrieve piece "k": the engine names the range, the stub reads it.
    let proto = s.handle_retrieve_piece(String::from("k")).unwrap();
    assert_eq!(proto.sector_id, id);
    assert_eq!(proto.piece_start_byte, 512);
    assert_eq!(proto.piece_len, 500);
    let unsealed =
        &sector_file[proto.piece_start_byte as usize..(proto.piece_start_byte + proto.piece_len) as usize];
    assert_eq!(unsealed, content_k.as_slice());

    let missing = s.handle_retrieve_piece(String::from("nope"));
    assert_eq!(missing, Err(SectorBuilderErr::PieceNotFound(String::from("nope"))));
}

#[test]
fn health_check_detects_tamper() {
    let mut s = new_scheduler(1024, 2);
    let id = add_piece(&mut s, "a", 1016).unwrap();
    s.check_and_dispatch(false);
    let file = vec![9u8; 1016];
    let checksum = calculate_checksum(&file);
    s.handle_seal_result(id, Ok((stub_output(1), checksum, file.len() as u64)))
        .unwrap()
        .unwrap();

    // Untampered file: healthy.
    let healthy = s.handle_get_sealed_sectors(PerformHealthCheck(true), &vec![Some(file.clone())]);
    assert_eq!(healthy.len(), 1);
    match &healthy[0] {
        GetSealedSectorResult::WithHealth(h, m) => {
            assert_eq!(*h, SealedSectorHealth::Healthy);
            assert_eq!(m.sector_id, id);
        },
        other => panic!("unexpected result {:?}", other),
    }

    // One overwritten byte: the checksum no longer matches.
    let mut tampered = file.clone();
    tampered[100] ^= 0xff;
    let r = s.handle_get_sealed_sectors(PerformHealthCheck(true), &vec![Some(tampered)]);
    match &r[0] {
        GetSealedSectorResult::WithHealth(h, _) => {
            assert_eq!(*h, SealedSectorHealth::ErrorInvalidChecksum)
        },
        other => panic!("unexpected result {:?}", other),
    }

    // A truncated file fails on length, a missing one on existence.
    let r = s.handle_get_sealed_sectors(PerformHealthCheck(true), &vec![Some(vec![9u8; 1000])]);
    match &r[0] {
        GetSealedSectorResult::WithHealth(h, _) => {
            assert_eq!(*h, SealedSectorHealth::ErrorInvalidLength)
        },
        other => panic!("unexpected result {:?}", other),
    }
    let r = s.handle_get_sealed_sectors(PerformHealthCheck(true), &vec![None]);
    match &r[0] {
        GetSealedSectorResult::WithHealth(h, _) => {
            assert_eq!(*h, SealedSectorHealth::ErrorMissing)
        },
        other => panic!("unexpected result {:?}", other),
    }

    // The health check never mutates state.
    assert_eq!(s.m.state.sealed.sectors.len(), 1);
    let plain = s.handle_get_sealed_sectors(PerformHealthCheck(false), &vec![None]);
    assert!(matches!(plain[0], GetSealedSectorResult::WithoutHealth(_)));
}

#[test]
fn shutdown_drains_cleanly() {
    // Two seals in flight; shutdown refuses new requests but still applies
    // and persists the workers' results.
    let mut s = new_scheduler(1024, 2);
    let id_a = add_piece(&mut s, "a", 1016).unwrap();
    let id_b = add_piece(&mut s, "b", 1016).unwrap();
    let protos = s.check_and_dispatch(false);
    assert_eq!(protos.len(), 2);

    let tasks = s.handle_shutdown(3);
    assert_eq!(tasks.len(), 3);
    assert!(s.shutting_down);

    // New work is refused.
    assert!(s.handle_add_piece_first(1).is_err());
    assert!(s.handle_retrieve_piece(String::from("a")).is_err());
    assert_eq!(s.check_and_dispatch(true).len(), 0);

    // In-flight seals drain and persist.
    let file = vec![1u8; 1016];
    let checksum = calculate_checksum(&file);
    s.handle_seal_result(id_a, Ok((stub_output(1), checksum, 1016)))
        .unwrap()
        .unwrap();
    s.handle_seal_result(id_b, Err(String::from("power loss")))
        .unwrap();
    assert_eq!(s.m.state.sealed.sectors.len(), 1);
    let reloaded = SectorMetadataManager::initialize(
        s.m.kv_store.clone(),
        SectorClass { sector_size: 1024, porep_proof_partitions: 2 },
        0,
        vec![0u8; 31],
        String::from("miner"),
        2,
    )
    .unwrap();
    assert_eq!(reloaded.state, s.m.state);
}

#[test]
fn sealed_sector_records_the_dispatch_ticket() {
    let mut s = new_scheduler(1024, 2);
    let id = add_piece(&mut s, "a", 1016).unwrap();
    let protos = s.check_and_dispatch(false);
    assert_eq!(protos[0].seal_ticket.block_height, 5);
    let file = vec![1u8; 1016];
    let checksum = calculate_checksum(&file);
    let sealed = s
        .handle_seal_result(id, Ok((stub_output(1), checksum, 1016)))
        .unwrap()
        .unwrap();
    assert_eq!(sealed.seal_ticket.block_height, 5);
    assert_eq!(sealed.seal_ticket.ticket_bytes, vec![1u8; 32]);
    // The sector moved from staged to sealed, and its status reads Sealed.
    assert!(s.m.state.staged.sectors.is_empty());
    match s.handle_get_seal_status(id).unwrap() {
        SealStatus::Sealed(m) => assert_eq!(m.sector_id, id),
        other => panic!("unexpected status {:?}", other),
    }
}

#[test]
fn replica_infos_mark_declared_faults() {
    let mut s = new_scheduler(1024, 2);
    let id_a = add_piece(&mut s, "a", 1016).unwrap();
    let id_b = add_piece(&mut s, "b", 1016).unwrap();
    s.check_and_dispatch(false);
    let file = vec![1u8; 1016];
    for id in [id_a, id_b] {
        let checksum = calculate_checksum(&file);
        s.handle_seal_result(id, Ok((stub_output(1), checksum, 1016)))
            .unwrap()
            .unwrap();
    }
    let infos = s.m.build_replica_infos(&vec![id_b]);
    assert_eq!(infos.len(), 2);
    assert!(!infos[0].is_faulty);
    assert!(infos[1].is_faulty);
    assert_eq!(infos[1].sector_id, id_b);
    assert_eq!(infos[0].comm_r, vec![2u8; 32]);
    assert_eq!(infos[0].p_aux.comm_c, vec![4u8; 32]);
    assert_eq!(infos[0].p_aux.comm_r_last, vec![5u8; 32]);
}
