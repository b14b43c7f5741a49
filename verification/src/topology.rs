//! The geometry that a disk reports to the guest.

use vstd::prelude::*;

verus! {

/// Block and transfer sizes of a disk, in bytes.
#[derive(Clone, Copy, Debug, PartialEq, Eq, Structural)]
pub struct DiskTopology {
    pub logical_block_size: u64,
    pub physical_block_size: u64,
    pub minimum_io_size: u64,
    pub optimal_io_size: u64,
}

impl DiskTopology {
    /// The geometry assumed of a disk that does not tell its own.
    pub open spec fn spec_default() -> DiskTopology {
        DiskTopology {
            logical_block_size: 512,
            physical_block_size: 512,
            minimum_io_size: 512,
            optimal_io_size: 0,
        }
    }

    /// This geometry with another logical block size.
    pub open spec fn spec_with_logical_block_size(self, logical_block_size: u64) -> DiskTopology {
        DiskTopology { logical_block_size, ..self }
    }

    /// The geometry that a disk shows: what probing found, or the default
    /// where probing failed, and in either case with the logical block size
    /// that was configured, if one was.
    pub open spec fn spec_resolve(
        probed: Result<DiskTopology, i32>,
        logical_block_size: Option<u64>,
    ) -> DiskTopology {
        let found = match probed {
            Ok(topology) => topology,
            Err(_) => DiskTopology::spec_default(),
        };
        match logical_block_size {
            Some(size) => found.spec_with_logical_block_size(size),
            None => found,
        }
    }

    /// Without a configured size the disk shows exactly what probing found;
    /// with one, the logical block size shown is the configured one whether
    /// probing succeeded or not, and the other sizes are those found or
    /// defaulted.
    pub proof fn law_override_wins(
        probed: Result<DiskTopology, i32>,
        logical_block_size: Option<u64>,
    )
        ensures
            logical_block_size is None && probed is Ok ==> DiskTopology::spec_resolve(
                probed,
                logical_block_size,
            ) == probed->Ok_0,
            logical_block_size is None && probed is Err ==> DiskTopology::spec_resolve(
                probed,
                logical_block_size,
            ) == DiskTopology::spec_default(),
            logical_block_size is Some ==> DiskTopology::spec_resolve(
                probed,
                logical_block_size,
            ).logical_block_size == logical_block_size->Some_0,
            DiskTopology::spec_resolve(probed, logical_block_size).physical_block_size
                == DiskTopology::spec_resolve(probed, None).physical_block_size,
            DiskTopology::spec_resolve(probed, logical_block_size).minimum_io_size
                == DiskTopology::spec_resolve(probed, None).minimum_io_size,
            DiskTopology::spec_resolve(probed, logical_block_size).optimal_io_size
                == DiskTopology::spec_resolve(probed, None).optimal_io_size,
    {
    }
}

impl Default for DiskTopology {
    fn default() -> (topology: DiskTopology)
        ensures
            topology == DiskTopology::spec_default(),
    {
        DiskTopology {
            logical_block_size: 512,
            physical_block_size: 512,
            minimum_io_size: 512,
            optimal_io_size: 0,
        }
    }
}

} // verus!
