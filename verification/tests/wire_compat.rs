//! Wire-format compatibility: entries pushed through the real on-device
//! queue implementation must come back out of the verified parser.

use destore_tools::flash_log::parse_queue_entries;
use embedded_storage_async::nor_flash::{
    ErrorType, NorFlash, NorFlashError, NorFlashErrorKind, ReadNorFlash,
};
use futures::executor::block_on;
use sequential_storage::cache::{Cache, Uncached};
use sequential_storage::queue::{QueueConfig, QueueStorage};

#[derive(Debug)]
struct RamError;

impl NorFlashError for RamError {
    fn kind(&self) -> NorFlashErrorKind {
        NorFlashErrorKind::OutOfBounds
    }
}

/// An in-memory NOR flash: erasing sets bits, writing clears them.
struct RamFlash {
    data: Vec<u8>,
}

impl ErrorType for RamFlash {
    type Error = RamError;
}

impl ReadNorFlash for RamFlash {
    const READ_SIZE: usize = 4;

    async fn read(&mut self, offset: u32, bytes: &mut [u8]) -> Result<(), Self::Error> {
        let start = offset as usize;
        let end = start + bytes.len();
        if end > self.data.len() {
            return Err(RamError);
        }
        bytes.copy_from_slice(&self.data[start..end]);
        Ok(())
    }

    fn capacity(&self) -> usize {
        self.data.len()
    }
}

impl NorFlash for RamFlash {
    const WRITE_SIZE: usize = 4;
    const ERASE_SIZE: usize = 4096;

    async fn erase(&mut self, from: u32, to: u32) -> Result<(), Self::Error> {
        if to as usize > self.data.len() || from > to {
            return Err(RamError);
        }
        self.data[from as usize..to as usize].fill(0xFF);
        Ok(())
    }

    async fn write(&mut self, offset: u32, bytes: &[u8]) -> Result<(), Self::Error> {
        let start = offset as usize;
        let end = start + bytes.len();
        if end > self.data.len() {
            return Err(RamError);
        }
        for (slot, b) in self.data[start..end].iter_mut().zip(bytes) {
            *slot &= *b;
        }
        Ok(())
    }
}

#[test]
fn parser_reads_what_the_device_queue_wrote() {
    let size = 4 * 4096u32;
    let flash = RamFlash { data: vec![0xFF; size as usize] };
    let config = QueueConfig::new(0..size);
    let cache: Cache<Uncached, Uncached, Uncached, ()> = Cache::new_uncached();
    let mut storage = QueueStorage::new(flash, config, cache);

    let mut announcement = vec![0xFFu8];
    announcement.extend_from_slice(&[1, 2, 3, 4, 5, 6, 7, 8]);
    let payloads: Vec<Vec<u8>> = vec![
        announcement,
        b"first record".to_vec(),
        vec![0u8; 1],
        (0..200u8).collect(),
    ];
    for p in &payloads {
        block_on(storage.push(p, false)).unwrap();
    }

    let (flash, _cache) = storage.destroy();
    let entries = parse_queue_entries(&flash.data).unwrap();
    assert_eq!(entries, payloads);
}
