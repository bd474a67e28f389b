//! Bin-packing and admission scenarios driven through the metadata manager.

use sector_builder::error::SectorBuilderErr;
use sector_builder::kv_store::KvStore;
use sector_builder::metadata::{SealStatus, SectorClass};
use sector_builder::metadata_manager::SectorMetadataManager;
use sector_builder::pieces::{get_piece_start_byte, piece_alignment, sector_used};
use sector_builder::store::SectorStore;

fn new_manager(sector_size: u64, max_staged: u8) -> SectorMetadataManager {
    SectorMetadataManager::initialize(
        KvStore::initialize(),
        SectorClass { sector_size, porep_proof_partitions: 2 },
        0,
        vec![0u8; 31],
        String::from("miner"),
        max_staged,
    )
    .unwrap()
}

fn add_piece(m: &mut SectorMetadataManager, key: &str, n: u64) -> Result<u64, SectorBuilderErr> {
    let id = m.add_piece_first(n)?;
    m.add_piece_second(id, String::from(key), n, n)
}

#[test]
fn max_user_bytes_of_one_kib_sector_is_1016() {
    let store = SectorStore::new(SectorClass { sector_size: 1024, porep_proof_partitions: 2 });
    assert_eq!(store.max_unsealed_bytes_per_sector(), 1016);
}

#[test]
fn piece_alignment_is_next_power_of_two() {
    assert_eq!(piece_alignment(0), 1);
    assert_eq!(piece_alignment(1), 1);
    assert_eq!(piece_alignment(2), 2);
    assert_eq!(piece_alignment(3), 4);
    assert_eq!(piece_alignment(127), 128);
    assert_eq!(piece_alignment(128), 128);
    assert_eq!(piece_alignment(129), 256);
    assert_eq!(piece_alignment(1000), 1024);
}

#[test]
fn piece_start_byte_uses_alignment_of_the_next_piece() {
    // A 100-byte piece fills [0, 100); a 500-byte piece is aligned to the
    // next multiple of 512.
    let lens: Vec<u64> = vec![100];
    assert_eq!(get_piece_start_byte(&lens, 500), 512);
    // Two 127-byte pieces pack back to back at multiples of 128.
    let lens2: Vec<u64> = vec![127];
    assert_eq!(get_piece_start_byte(&lens2, 127), 128);
    assert_eq!(sector_used(&vec![127, 127]), 255);
}

#[test]
fn single_piece_below_capacity() {
    // 1 KiB sector => 1016 caller bytes. One 127-byte piece lands in the
    // first allocated sector, which keeps accepting data.
    let mut m = new_manager(1024, 2);
    let id = add_piece(&mut m, "a", 127).unwrap();
    assert_eq!(id, 1);
    let staged = m.get_staged_sectors();
    assert_eq!(staged.len(), 1);
    assert_eq!(staged[0].sector_id, 1);
    assert_eq!(staged[0].seal_status, SealStatus::AcceptingData);
    assert_eq!(staged[0].pieces.len(), 1);
    assert_eq!(staged[0].pieces[0].piece_key, "a");
    assert_eq!(staged[0].pieces[0].num_bytes, 127);
}

#[test]
fn two_pieces_bin_pack_into_one_sector() {
    let mut m = new_manager(1024, 2);
    let id_a = add_piece(&mut m, "a", 127).unwrap();
    let id_b = add_piece(&mut m, "b", 127).unwrap();
    assert_eq!(id_a, 1);
    assert_eq!(id_b, 1);
    let staged = m.get_staged_sectors();
    assert_eq!(staged.len(), 1);
    assert_eq!(staged[0].pieces.len(), 2);
    assert_eq!(staged[0].pieces[1].piece_key, "b");
    // After each add the snapshot reflects the new piece.
    let reloaded = SectorMetadataManager::initialize(
        m.kv_store.clone(),
        SectorClass { sector_size: 1024, porep_proof_partitions: 2 },
        0,
        vec![0u8; 31],
        String::from("miner"),
        2,
    )
    .unwrap();
    assert_eq!(reloaded.state, m.state);
}

#[test]
fn overflow_allocates_a_new_sector() {
    // A full sector stops accepting and the next piece opens sector 2.
    let mut m = new_manager(1024, 2);
    let id_a = add_piece(&mut m, "a", 1016).unwrap();
    assert_eq!(id_a, 1);
    assert_eq!(m.get_staged_sectors()[0].seal_status, SealStatus::FullyPacked);
    let ready = m.get_sectors_ready_for_sealing(false);
    assert_eq!(ready, vec![1]);
    assert_eq!(m.get_staged_sectors()[0].seal_status, SealStatus::ReadyForSealing);
    let id_b = add_piece(&mut m, "b", 1).unwrap();
    assert_eq!(id_b, 2);
    assert_eq!(m.get_staged_sectors().len(), 2);
}

#[test]
fn admission_refused_when_fully_staged() {
    // With one staging slot taken by an open sector, a piece that fits in
    // no open sector is refused with FullyStaged.
    let mut m = new_manager(1024, 1);
    add_piece(&mut m, "a", 127).unwrap();
    let refused = add_piece(&mut m, "b", 1000);
    assert_eq!(refused, Err(SectorBuilderErr::FullyStaged));
    // Once the open sector is picked for sealing its slot is free again.
    let ready = m.get_sectors_ready_for_sealing(true);
    assert_eq!(ready, vec![1]);
    let id_b = add_piece(&mut m, "b", 1000).unwrap();
    assert_eq!(id_b, 2);
}

#[test]
fn piece_above_capacity_is_a_caller_error() {
    let mut m = new_manager(1024, 2);
    let refused = m.add_piece_first(1017);
    assert_eq!(
        refused,
        Err(SectorBuilderErr::OverflowError { num_bytes: 1017, max: 1016 })
    );
}

#[test]
fn incomplete_write_is_a_receiver_error() {
    let mut m = new_manager(1024, 2);
    let id = m.add_piece_first(100).unwrap();
    let r = m.add_piece_second(id, String::from("a"), 100, 37);
    assert_eq!(
        r,
        Err(SectorBuilderErr::IncompleteWriteError {
            num_bytes_written: 37,
            num_bytes_in_piece: 100,
        })
    );
}

#[test]
fn sector_ids_issue_strictly_upward() {
    // Each allocation raises the watermark by one; pieces that fit in an
    // open sector do not allocate.
    let mut m = new_manager(1024, 4);
    let a = add_piece(&mut m, "a", 1016).unwrap();
    let b = add_piece(&mut m, "b", 1016).unwrap();
    let c = add_piece(&mut m, "c", 10).unwrap();
    let d = add_piece(&mut m, "d", 10).unwrap();
    assert_eq!((a, b, c), (1, 2, 3));
    assert_eq!(d, 3);
    assert_eq!(m.state.last_committed_sector_id, 3);
}

#[test]
fn serial_admissions_return_a_consistent_multiset() {
    // Many callers' pieces, handled one after the other: every call
    // succeeds or is refused with FullyStaged, and the returned pairs match
    // the staged map exactly.
    let mut m = new_manager(1024, 2);
    let keys = ["k0", "k1", "k2", "k3", "k4", "k5"];
    let mut returned: Vec<(u64, String)> = Vec::new();
    for key in keys {
        match add_piece(&mut m, key, 300) {
            Ok(id) => returned.push((id, String::from(key))),
            Err(e) => assert_eq!(e, SectorBuilderErr::FullyStaged),
        }
    }
    let mut from_state: Vec<(u64, String)> = Vec::new();
    for s in m.get_staged_sectors() {
        for p in &s.pieces {
            from_state.push((s.sector_id, p.piece_key.clone()));
        }
    }
    returned.sort();
    from_state.sort();
    assert_eq!(returned, from_state);
}
