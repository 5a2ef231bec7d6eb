//! Tasks for an I2C device: what is to be read or written, sealed by a digest of the final image.
use crate::digest::{sha256_hex, sha256_hex_text};
use crate::text::{blank, is_blank, same_text};
use vstd::prelude::*;

verus! {

/// The schema of a task.
pub const TASK_SCHEMA: &'static str = "camera-toolbox.i2c.task.v1";

/// What a task does.
#[derive(Clone, Copy, Debug, PartialEq, Eq, Structural)]
pub enum TaskOperation {
    Read,
    GuardedWrite,
}

/// The device that a task is for.
#[derive(Clone, Copy, Debug, PartialEq, Eq, Structural)]
pub struct I2cTaskTarget {
    pub bus: u32,
    pub address: u16,
    pub address_width_bytes: u8,
    pub page_size_bytes: u16,
    pub write_cycle_ms: u16,
}

/// A range of bytes of the device.
#[derive(Clone, Copy, Debug, PartialEq, Eq, Structural)]
pub struct I2cReadRange {
    pub offset: u16,
    pub byte_len: u16,
}

/// Bytes that are written in one cycle.
#[derive(Debug)]
pub struct I2cPageWrite {
    pub offset: u16,
    pub bytes: Vec<u8>,
    pub settle_ms: u16,
}

/// What the image of the device has to satisfy.
#[derive(Clone, Copy, Debug, PartialEq, Eq, Structural)]
pub struct I2cMapValidationContract {
    pub image_bytes: u16,
}

/// A task.
#[derive(Debug)]
pub struct I2cTaskPacket {
    pub schema: String,
    pub operation: TaskOperation,
    pub map_id: String,
    pub map_digest: String,
    pub target: I2cTaskTarget,
    pub read_ranges: Vec<I2cReadRange>,
    pub validation: I2cMapValidationContract,
    pub pages: Vec<I2cPageWrite>,
    pub final_image: Vec<u8>,
    pub verify_after_write: bool,
    pub final_image_digest: String,
}

/// Why a task is not acceptable.
#[derive(Clone, Copy, Debug, PartialEq, Eq, Structural)]
pub enum I2cTaskFault {
    Schema,
    MapIdentity,
    Target,
    ImageSize,
    ImageDigest,
    ReadRanges,
    NoPages,
    PageLayout,
}

impl I2cTaskFault {
    /// The text that the fault is reported by.
    pub open spec fn text(self) -> Seq<char> {
        match self {
            I2cTaskFault::Schema => "schema must be `camera-toolbox.i2c.task.v1`"@,
            I2cTaskFault::MapIdentity => "map identity must not be blank"@,
            I2cTaskFault::Target => "target is invalid"@,
            I2cTaskFault::ImageSize => "final image does not match validation image size"@,
            I2cTaskFault::ImageDigest => "final image digest does not match image bytes"@,
            I2cTaskFault::ReadRanges => "read ranges are invalid"@,
            I2cTaskFault::NoPages => "guarded write task must contain pages"@,
            I2cTaskFault::PageLayout => "page layout is invalid"@,
        }
    }

    pub fn describe(&self) -> (r: &'static str)
        ensures
            r@ == self.text(),
    {
        match self {
            I2cTaskFault::Schema => "schema must be `camera-toolbox.i2c.task.v1`",
            I2cTaskFault::MapIdentity => "map identity must not be blank",
            I2cTaskFault::Target => "target is invalid",
            I2cTaskFault::ImageSize => "final image does not match validation image size",
            I2cTaskFault::ImageDigest => "final image digest does not match image bytes",
            I2cTaskFault::ReadRanges => "read ranges are invalid",
            I2cTaskFault::NoPages => "guarded write task must contain pages",
            I2cTaskFault::PageLayout => "page layout is invalid",
        }
    }
}

/// Whether a range lies within an image and is not empty.
pub open spec fn range_inside(range: I2cReadRange, image: nat) -> bool {
    range.byte_len > 0 && range.offset + range.byte_len <= image
}

/// Whether a page lies within an image, is not empty and settles for a write cycle.
pub open spec fn page_inside(page: I2cPageWrite, image: nat, cycle: u16) -> bool {
    page.bytes@.len() > 0 && page.offset + page.bytes@.len() <= image && page.settle_ms == cycle
}

impl I2cTaskPacket {
    /// Why the task is not acceptable; nothing where it is.
    pub open spec fn fault(self) -> Option<I2cTaskFault> {
        if self.schema@ != TASK_SCHEMA@ {
            Some(I2cTaskFault::Schema)
        } else if blank(self.map_id@) || blank(self.map_digest@) {
            Some(I2cTaskFault::MapIdentity)
        } else if !(self.target.address_width_bytes == 1 || self.target.address_width_bytes == 2)
            || !(0x03 <= self.target.address <= 0x7f) || self.target.page_size_bytes == 0 {
            Some(I2cTaskFault::Target)
        } else if self.final_image@.len() == 0 || self.final_image@.len()
            != self.validation.image_bytes {
            Some(I2cTaskFault::ImageSize)
        } else if self.final_image_digest@ != sha256_hex_text(self.final_image@) {
            Some(I2cTaskFault::ImageDigest)
        } else if self.read_ranges@.len() == 0 || exists|i: int|
            0 <= i < self.read_ranges@.len() && !range_inside(
                #[trigger] self.read_ranges@[i],
                self.final_image@.len(),
            ) {
            Some(I2cTaskFault::ReadRanges)
        } else if self.operation == TaskOperation::GuardedWrite && self.pages@.len() == 0 {
            Some(I2cTaskFault::NoPages)
        } else if exists|i: int|
            0 <= i < self.pages@.len() && !page_inside(
                #[trigger] self.pages@[i],
                self.final_image@.len(),
                self.target.write_cycle_ms,
            ) {
            Some(I2cTaskFault::PageLayout)
        } else {
            None
        }
    }

    /// Seals the task with the digest of its final image.
    pub fn with_digest(self) -> (r: I2cTaskPacket)
        ensures
            r.final_image_digest@ == sha256_hex_text(self.final_image@),
            r == (I2cTaskPacket { final_image_digest: r.final_image_digest, ..self }),
    {
        let digest: String = sha256_hex(&self.final_image);
        I2cTaskPacket { final_image_digest: digest, ..self }
    }

    /// Checks the task.
    pub fn validate(&self) -> (r: Result<(), I2cTaskFault>)
        ensures
            match self.fault() {
                Some(fault) => r == Err::<(), I2cTaskFault>(fault),
                None => r is Ok,
            },
    {
        if !same_text(self.schema.as_str(), TASK_SCHEMA) {
            return Err(I2cTaskFault::Schema);
        }
        if is_blank(self.map_id.as_str()) || is_blank(self.map_digest.as_str()) {
            return Err(I2cTaskFault::MapIdentity);
        }
        if !(self.target.address_width_bytes == 1 || self.target.address_width_bytes == 2)
            || self.target.address < 0x03 || self.target.address > 0x7f
            || self.target.page_size_bytes == 0 {
            return Err(I2cTaskFault::Target);
        }
        let image: usize = self.final_image.len();
        if image == 0 || image != self.validation.image_bytes as usize {
            return Err(I2cTaskFault::ImageSize);
        }
        if !same_text(
            self.final_image_digest.as_str(),
            sha256_hex(&self.final_image).as_str(),
        ) {
            return Err(I2cTaskFault::ImageDigest);
        }
        if self.read_ranges.len() == 0 {
            return Err(I2cTaskFault::ReadRanges);
        }
        let mut i: usize = 0;
        while i < self.read_ranges.len()
            invariant
                i <= self.read_ranges@.len(),
                image == self.final_image@.len(),
                forall|j: int|
                    0 <= j < i ==> range_inside(
                        #[trigger] self.read_ranges@[j],
                        self.final_image@.len(),
                    ),
                self.schema@ == TASK_SCHEMA@,
                !blank(self.map_id@) && !blank(self.map_digest@),
                self.target.address_width_bytes == 1 || self.target.address_width_bytes == 2,
                0x03 <= self.target.address <= 0x7f,
                self.target.page_size_bytes != 0,
                self.final_image@.len() != 0,
                self.final_image@.len() == self.validation.image_bytes,
                self.final_image_digest@ == sha256_hex_text(self.final_image@),
                self.read_ranges@.len() > 0,
            decreases self.read_ranges@.len() - i,
        {
            let range: I2cReadRange = self.read_ranges[i];
            if range.byte_len == 0 || range.offset as u32 + range.byte_len as u32 > image as u32 {
                proof {
                    assert(!range_inside(self.read_ranges@[i as int], self.final_image@.len()));
                }
                return Err(I2cTaskFault::ReadRanges);
            }
            i = i + 1;
        }
        if self.operation == TaskOperation::GuardedWrite && self.pages.len() == 0 {
            return Err(I2cTaskFault::NoPages);
        }
        let mut i: usize = 0;
        while i < self.pages.len()
            invariant
                i <= self.pages@.len(),
                image == self.final_image@.len(),
                image <= 0xffff,
                forall|j: int|
                    0 <= j < i ==> page_inside(
                        #[trigger] self.pages@[j],
                        self.final_image@.len(),
                        self.target.write_cycle_ms,
                    ),
                forall|j: int|
                    0 <= j < self.read_ranges@.len() ==> range_inside(
                        #[trigger] self.read_ranges@[j],
                        self.final_image@.len(),
                    ),
                !(self.operation == TaskOperation::GuardedWrite && self.pages@.len() == 0),
                self.schema@ == TASK_SCHEMA@,
                !blank(self.map_id@) && !blank(self.map_digest@),
                self.target.address_width_bytes == 1 || self.target.address_width_bytes == 2,
                0x03 <= self.target.address <= 0x7f,
                self.target.page_size_bytes != 0,
                self.final_image@.len() != 0,
                self.final_image@.len() == self.validation.image_bytes,
                self.final_image_digest@ == sha256_hex_text(self.final_image@),
                self.read_ranges@.len() > 0,
            decreases self.pages@.len() - i,
        {
            let page: &I2cPageWrite = &self.pages[i];
            if page.bytes.len() == 0 || page.bytes.len() > image || page.offset as usize
                > image - page.bytes.len() || page.settle_ms != self.target.write_cycle_ms {
                proof {
                    assert(!page_inside(
                        self.pages@[i as int],
                        self.final_image@.len(),
                        self.target.write_cycle_ms,
                    ));
                }
                return Err(I2cTaskFault::PageLayout);
            }
            i = i + 1;
        }
        Ok(())
    }
}

} // verus!
