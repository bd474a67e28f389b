//! Snapshot encoding, the key→value store, checksums, error
//! classification, and the step-by-step builder.

use sector_builder::builder::{
    ensure_parameter_cache_hydrated, FileStat, ParameterCacheStats, SimpleSectorBuilder,
};
use sector_builder::checksum::calculate_checksum;
use sector_builder::codec::{deserialize_state, serialize_state, snapshot_round_trip};
use sector_builder::error::{log_unrecov, SectorBuilderErr};
use sector_builder::kv_store::{KvStore, SnapshotKey};
use sector_builder::metadata::{
    PieceMetadata, SealStatus, SealTicket, SealedSectorHealth, SealedSectorMetadata,
    PersistentAux, SectorClass, StagedSectorMetadata,
};
use sector_builder::responses::{
    err_code_and_msg, from_ffi_sector_class, seal_status_code, FCPResponseStatus,
    FFISealStatus, FFISealedSectorHealth, FFISectorClass,
};
use sector_builder::state::{SealedState, SectorBuilderState, StagedState};

fn sample_state() -> SectorBuilderState {
    let piece = PieceMetadata {
        piece_key: String::from("key-α"),
        num_bytes: 127,
        comm_p: None,
        piece_inclusion_proof: None,
    };
    let sealed_piece = PieceMetadata {
        piece_key: String::from("k2"),
        num_bytes: 500,
        comm_p: Some(vec![7u8; 32]),
        piece_inclusion_proof: Some(vec![8u8; 48]),
    };
    let ticket = SealTicket { block_height: 42, ticket_bytes: vec![3u8; 32] };
    SectorBuilderState {
        staged: StagedState {
            sectors: vec![
                StagedSectorMetadata {
                    sector_id: 1,
                    sector_access: String::from("miner/staging-1"),
                    pieces: vec![piece],
                    seal_status: SealStatus::Sealing(ticket.clone()),
                },
                StagedSectorMetadata {
                    sector_id: 3,
                    sector_access: String::from("miner/staging-3"),
                    pieces: vec![],
                    seal_status: SealStatus::Failed(String::from("worker died")),
                },
            ],
        },
        sealed: SealedState {
            sectors: vec![SealedSectorMetadata {
                sector_id: 2,
                sector_access: String::from("miner/sealed-2"),
                pieces: vec![sealed_piece],
                comm_r: vec![1u8; 32],
                comm_d: vec![2u8; 32],
                p_aux: PersistentAux { comm_c: vec![4u8; 32], comm_r_last: vec![5u8; 32] },
                proof: vec![6u8; 192],
                blake2b_checksum: vec![9u8; 32],
                len: 1016,
                seal_ticket: ticket,
            }],
        },
        last_committed_sector_id: 3,
    }
}

#[test]
fn snapshot_save_load_round_trip() {
    let state = sample_state();
    let blob = serialize_state(&state);
    let back = deserialize_state(&blob).unwrap();
    assert_eq!(back, state);
    // The verified round-trip entry point agrees.
    let again = snapshot_round_trip(&state).unwrap();
    assert_eq!(again, state);
}

#[test]
fn snapshot_rejects_malformed_blobs() {
    let state = sample_state();
    let blob = serialize_state(&state);
    // Truncation loses required bytes.
    let truncated: Vec<u8> = blob[..blob.len() - 1].to_vec();
    assert!(deserialize_state(&truncated).is_none());
    // Trailing garbage is refused too.
    let mut padded = blob.clone();
    padded.push(0);
    assert!(deserialize_state(&padded).is_none());
    // An empty blob is no snapshot.
    assert!(deserialize_state(&Vec::new()).is_none());
}

#[test]
fn kv_store_put_get_replace() {
    let mut kv = KvStore::initialize();
    let k1 = SnapshotKey::new(vec![0u8; 31], 1024).to_bytes();
    let k2 = SnapshotKey::new(vec![0u8; 31], 2048).to_bytes();
    assert!(kv.get(&k1).is_none());
    kv.put(k1.clone(), vec![1, 2, 3]);
    kv.put(k2.clone(), vec![9]);
    assert_eq!(kv.get(&k1).unwrap(), &vec![1, 2, 3]);
    assert_eq!(kv.get(&k2).unwrap(), &vec![9]);
    kv.put(k1.clone(), vec![4, 5]);
    assert_eq!(kv.get(&k1).unwrap(), &vec![4, 5]);
    assert_eq!(kv.get(&k2).unwrap(), &vec![9]);
}

#[test]
fn checksum_is_a_32_byte_blake2b_digest() {
    // BLAKE2b with a 32-byte digest over empty input has a well-known
    // value; this pins the checksum down to the real function.
    let expected_hex = "0e5751c026e543b2e8ab2eb06099daa1d1e5df47778f7787faab45cdf12fe3a8";
    let digest = calculate_checksum(&Vec::new());
    assert_eq!(digest.len(), 32);
    let hex: String = digest.iter().map(|b| format!("{:02x}", b)).collect();
    assert_eq!(hex, expected_hex);
    // Different contents give different digests.
    let other = calculate_checksum(&vec![0u8]);
    assert_ne!(digest, other);
}

#[test]
fn error_codes_classify_caller_and_receiver_errors() {
    let overflow = SectorBuilderErr::OverflowError { num_bytes: 9, max: 8 };
    assert_eq!(err_code_and_msg(&overflow).0, FCPResponseStatus::FCPCallerError);
    let short = SectorBuilderErr::IncompleteWriteError {
        num_bytes_written: 1,
        num_bytes_in_piece: 2,
    };
    assert_eq!(err_code_and_msg(&short).0, FCPResponseStatus::FCPReceiverError);
    let unrecov = SectorBuilderErr::Unrecoverable(String::from("boom"));
    assert_eq!(err_code_and_msg(&unrecov).0, FCPResponseStatus::FCPReceiverError);
    assert!(unrecov.is_unrecoverable());
    let not_found = SectorBuilderErr::PieceNotFound(String::from("k"));
    assert_eq!(err_code_and_msg(&not_found).0, FCPResponseStatus::FCPCallerError);
    let no_sector = SectorBuilderErr::SectorNotFound(7);
    let (code, msg) = err_code_and_msg(&no_sector);
    assert_eq!(code, FCPResponseStatus::FCPCallerError);
    assert_eq!(msg, "no sector with id 7 found");
    assert_eq!(err_code_and_msg(&SectorBuilderErr::FullyStaged).0, FCPResponseStatus::FCPCallerError);
    // Results pass through unrecoverable logging unchanged.
    let r: Result<u32, SectorBuilderErr> = Err(SectorBuilderErr::FullyStaged);
    assert_eq!(log_unrecov(r), Err(SectorBuilderErr::FullyStaged));
}

#[test]
fn flat_codes_mirror_engine_values() {
    assert_eq!(seal_status_code(&SealStatus::AcceptingData), FFISealStatus::Pending);
    assert_eq!(seal_status_code(&SealStatus::FullyPacked), FFISealStatus::Pending);
    assert_eq!(seal_status_code(&SealStatus::ReadyForSealing), FFISealStatus::Pending);
    let ticket = SealTicket { block_height: 1, ticket_bytes: vec![0u8; 32] };
    assert_eq!(seal_status_code(&SealStatus::Sealing(ticket)), FFISealStatus::Sealing);
    assert_eq!(
        seal_status_code(&SealStatus::Failed(String::from("x"))),
        FFISealStatus::Failed
    );
    assert_eq!(
        FFISealedSectorHealth::from(SealedSectorHealth::Healthy),
        FFISealedSectorHealth::Healthy
    );
    assert_eq!(
        FFISealedSectorHealth::from(SealedSectorHealth::ErrorInvalidChecksum),
        FFISealedSectorHealth::ErrorInvalidChecksum
    );
    let sc = from_ffi_sector_class(FFISectorClass { sector_size: 1024, porep_proof_partitions: 2 });
    assert_eq!(sc, SectorClass { sector_size: 1024, porep_proof_partitions: 2 });
}

#[test]
fn test_cannot_init_sector_builder_without_empty_parameter_cache() {
    // A missing parameter cache is a fatal startup error for any sector
    // class, here one of size 32 with 123 partitions and a 31-byte prover.
    let missing = FileStat { is_file: false, len: 0 };
    let stats = ParameterCacheStats {
        porep_verifying_key: missing,
        porep_params: missing,
        post_verifying_key: missing,
        post_params: missing,
    };
    let _prover = [0u8; 31];
    let result = SimpleSectorBuilder::new(
        SectorClass { sector_size: 32, porep_proof_partitions: 123 },
        1,
        &stats,
    );
    assert!(result.is_err());
}

#[test]
fn parameter_cache_checks_all_four_files() {
    let good = FileStat { is_file: true, len: 10 };
    let empty = FileStat { is_file: true, len: 0 };
    let full = ParameterCacheStats {
        porep_verifying_key: good,
        porep_params: good,
        post_verifying_key: good,
        post_params: good,
    };
    assert!(ensure_parameter_cache_hydrated(&full).is_ok());
    let one_empty = ParameterCacheStats { post_params: empty, ..full };
    assert!(ensure_parameter_cache_hydrated(&one_empty).is_err());
}

#[test]
fn simple_builder_packs_like_the_engine() {
    let good = FileStat { is_file: true, len: 10 };
    let stats = ParameterCacheStats {
        porep_verifying_key: good,
        porep_params: good,
        post_verifying_key: good,
        post_params: good,
    };
    let b = SimpleSectorBuilder::new(
        SectorClass { sector_size: 1024, porep_proof_partitions: 2 },
        1,
        &stats,
    )
    .unwrap();
    // No staged sectors: the piece opens the caller-provided fresh id.
    let id = b
        .add_piece_first(String::from("miner"), Vec::new(), 127, 10)
        .unwrap();
    assert_eq!(id, 10);
    // Recording the write appends the piece.
    let sector = StagedSectorMetadata {
        sector_id: 10,
        sector_access: String::from("miner/staging-10"),
        pieces: vec![],
        seal_status: SealStatus::AcceptingData,
    };
    let updated = b
        .add_piece_second(sector, String::from("a"), 127, 127)
        .unwrap();
    assert_eq!(updated.pieces.len(), 1);
    assert_eq!(updated.pieces[0].piece_key, "a");
    assert_eq!(updated.seal_status, SealStatus::AcceptingData);
    // A full sector is picked for sealing.
    let ids = b.get_sectors_ready_for_sealing(vec![updated], true);
    assert_eq!(ids, vec![10]);
}
