use block::{AsyncIoError, DiskFileError, DiskTopology, RawFileDiskSync};

#[test]
fn disk_keeps_what_it_was_made_with() {
    let disk = RawFileDiskSync::new(8, Some(4096));
    assert_eq!(disk.fd(), 8);
    assert_eq!(disk.logical_block_size(), Some(4096));
    let plain = RawFileDiskSync::new(9, None);
    assert_eq!(plain.fd(), 9);
    assert_eq!(plain.logical_block_size(), None);
}

#[test]
fn size_is_the_end_offset() {
    let disk = RawFileDiskSync::new(8, None);
    assert_eq!(disk.size(Ok(0)), Ok(0));
    assert_eq!(disk.size(Ok(1 << 40)), Ok(1 << 40));
}

#[test]
fn size_error_carries_the_code() {
    let disk = RawFileDiskSync::new(8, Some(512));
    assert_eq!(disk.size(Err(29)), Err(DiskFileError::Size(29)));
}

#[test]
fn engine_is_bound_to_the_disk() {
    let disk = RawFileDiskSync::new(8, Some(4096));
    let mut engine = disk.new_async_io(128).unwrap();
    assert_eq!(engine.fd(), 8);
    assert_eq!(engine.logical_block_size(), Some(4096));
    assert_eq!(engine.next_completed_request(), None);
    let mut other = disk.new_async_io(0).unwrap();
    assert_eq!(other.fd(), 8);
    assert_eq!(other.logical_block_size(), Some(4096));
    assert_eq!(other.next_completed_request(), None);
}

#[test]
fn default_topology() {
    assert_eq!(
        DiskTopology::default(),
        DiskTopology {
            logical_block_size: 512,
            physical_block_size: 512,
            minimum_io_size: 512,
            optimal_io_size: 0,
        }
    );
}

#[test]
fn topology_without_override_is_what_was_probed() {
    let disk = RawFileDiskSync::new(8, None);
    let probed = DiskTopology {
        logical_block_size: 4096,
        physical_block_size: 8192,
        minimum_io_size: 16384,
        optimal_io_size: 65536,
    };
    assert_eq!(disk.topology(Ok(probed)), probed);
}

#[test]
fn topology_falls_back_to_the_default() {
    let disk = RawFileDiskSync::new(8, None);
    assert_eq!(disk.topology(Err(25)), DiskTopology::default());
}

#[test]
fn topology_override_replaces_the_probed_size() {
    let disk = RawFileDiskSync::new(8, Some(2048));
    let probed = DiskTopology {
        logical_block_size: 4096,
        physical_block_size: 8192,
        minimum_io_size: 16384,
        optimal_io_size: 65536,
    };
    assert_eq!(
        disk.topology(Ok(probed)),
        DiskTopology {
            logical_block_size: 2048,
            physical_block_size: 8192,
            minimum_io_size: 16384,
            optimal_io_size: 65536,
        }
    );
}

#[test]
fn topology_override_replaces_the_default_size() {
    let disk = RawFileDiskSync::new(8, Some(2048));
    assert_eq!(
        disk.topology(Err(25)),
        DiskTopology {
            logical_block_size: 2048,
            physical_block_size: 512,
            minimum_io_size: 512,
            optimal_io_size: 0,
        }
    );
}

#[test]
fn errors_compare_by_kind_and_code() {
    assert_eq!(AsyncIoError::ReadVectored(5), AsyncIoError::ReadVectored(5));
    assert_ne!(AsyncIoError::ReadVectored(5), AsyncIoError::WriteVectored(5));
    assert_ne!(AsyncIoError::Fsync(5), AsyncIoError::Fsync(6));
}

#[test]
fn topology_shows_whatever_size_was_configured() {
    let disk = RawFileDiskSync::new(8, Some(0));
    assert_eq!(disk.topology(Err(25)).logical_block_size, 0);
    let disk = RawFileDiskSync::new(8, Some(520));
    assert_eq!(disk.topology(Err(25)).logical_block_size, 520);
}
