//! Stream writers: the `StreamWriter` interface and a writer into memory.
use vstd::prelude::*;
use crate::utilities::extend_bytes;

verus! {

/// How a writer opens its destination.
#[allow(non_camel_case_types)]
#[derive(Clone, Copy, Debug, PartialEq, Eq, Structural)]
pub enum OpenFlag {
    /// No option.
    NONE,
    /// Overwrite an existing destination.
    OVERWRITE,
}

impl OpenFlag {
    /// The flag's bit value.
    pub fn bits(&self) -> (r: u32)
        ensures
            r == (if *self == OpenFlag::OVERWRITE { 1u32 } else { 0u32 }),
    {
        match self {
            OpenFlag::NONE => 0,
            OpenFlag::OVERWRITE => 1,
        }
    }
}

/// A writer of a byte stream to a named destination.
pub trait StreamWriter {
    /// Opens `file_name`; fails when already open.
    fn open(&mut self, file_name: &str, flags: OpenFlag) -> bool;

    /// Opens `file_name` in place of the current destination.
    fn reopen(&mut self, file_name: &str, flags: OpenFlag) -> bool;

    /// Closes the destination.
    fn close(&mut self);

    /// Whether a destination is open.
    fn is_open(&self) -> bool;

    /// Writes `buf`; returns the number of bytes written.
    fn write(&mut self, buf: &[u8]) -> usize;

    /// The name of the open destination, if it has one.
    fn get_file_name(&self) -> Option<String>;

    /// The number of bytes written.
    fn get_write_size(&self) -> u64;

    /// Whether the written size is known.
    fn is_write_size_available(&self) -> bool;

    /// Sets the unit in which space is reserved ahead; unsupported by default.
    fn set_preallocation_unit(&mut self, unit: u64) -> (r: bool) {
        false
    }
}

/// A writer into a buffer in memory; the name is only recorded.
pub struct MemoryStreamWriter {
    name: String,
    buffer: Vec<u8>,
    opened: bool,
    write_size: u64,
}

impl MemoryStreamWriter {
    /// Whether a destination is open.
    pub closed spec fn is_opened(&self) -> bool {
        self.opened
    }

    /// The name of the destination.
    pub closed spec fn name(&self) -> Seq<char> {
        self.name@
    }

    /// The bytes written to the destination.
    pub closed spec fn contents(&self) -> Seq<u8> {
        self.buffer@
    }

    /// The number of bytes written, across reopenings.
    pub closed spec fn written(&self) -> u64 {
        self.write_size
    }

    /// A writer with nothing open.
    pub fn new() -> (r: Self)
        ensures
            !r.is_opened(),
            r.written() == 0,
    {
        MemoryStreamWriter { name: String::new(), buffer: Vec::new(), opened: false, write_size: 0 }
    }

    /// The bytes written to the open destination.
    pub fn data(&self) -> (r: Option<&[u8]>)
        ensures
            r is Some == self.is_opened(),
            r matches Some(d) ==> d@ == self.contents(),
    {
        if self.opened {
            Some(self.buffer.as_slice())
        } else {
            None
        }
    }
}

impl Default for MemoryStreamWriter {
    fn default() -> (r: Self)
        ensures
            !r.is_opened(),
            r.written() == 0,
    {
        Self::new()
    }
}

impl StreamWriter for MemoryStreamWriter {
    /// Opens an empty buffer named `file_name` and restarts the written size; fails when already open.
    fn open(&mut self, file_name: &str, flags: OpenFlag) -> (r: bool)
        ensures
            r == !old(self).is_opened(),
            r ==> final(self).is_opened() && final(self).name() == file_name@
                && final(self).contents() == Seq::<u8>::empty() && final(self).written() == 0,
            !r ==> final(self).is_opened() == old(self).is_opened() && final(self).name() == old(self).name()
                && final(self).contents() == old(self).contents() && final(self).written() == old(self).written(),
    {
        if self.opened {
            return false;
        }
        self.name = file_name.to_owned();
        self.buffer = Vec::new();
        self.opened = true;
        self.write_size = 0;
        true
    }

    /// Opens an empty buffer named `file_name` in place of the current one; the written size is kept.
    fn reopen(&mut self, file_name: &str, flags: OpenFlag) -> (r: bool)
        ensures
            r,
            final(self).is_opened(),
            final(self).name() == file_name@,
            final(self).contents() == Seq::<u8>::empty(),
            final(self).written() == old(self).written(),
    {
        self.name = file_name.to_owned();
        self.buffer = Vec::new();
        self.opened = true;
        true
    }

    fn close(&mut self)
        ensures
            !final(self).is_opened(),
            final(self).written() == old(self).written(),
    {
        self.opened = false;
        self.name = String::new();
        self.buffer = Vec::new();
    }

    fn is_open(&self) -> (r: bool)
        ensures
            r == self.is_opened(),
    {
        self.opened
    }

    /// Appends `buf` to the open buffer and counts it (the count stops at `u64::MAX`);
    /// nothing is written when closed.
    fn write(&mut self, buf: &[u8]) -> (r: usize)
        ensures
            final(self).is_opened() == old(self).is_opened(),
            final(self).name() == old(self).name(),
            old(self).is_opened() ==> {
                &&& r == buf@.len()
                &&& final(self).contents() == old(self).contents() + buf@
                &&& final(self).written() == (if old(self).written() + buf@.len() > u64::MAX { u64::MAX as int } else { old(self).written() + buf@.len() })
            },
            !old(self).is_opened() ==> r == 0 && final(self).contents() == old(self).contents()
                && final(self).written() == old(self).written(),
    {
        if !self.opened {
            return 0;
        }
        extend_bytes(&mut self.buffer, buf);
        let n = buf.len() as u64;
        self.write_size = match self.write_size.checked_add(n) {
            Some(s) => s,
            None => u64::MAX,
        };
        buf.len()
    }

    /// The name of the open destination; `None` when closed or unnamed.
    fn get_file_name(&self) -> (r: Option<String>)
        ensures
            r is Some == (self.is_opened() && self.name().len() > 0),
            r matches Some(n) ==> n@ == self.name(),
    {
        if self.opened && !self.name.as_str().is_empty() {
            Some(self.name.clone())
        } else {
            None
        }
    }

    fn get_write_size(&self) -> (r: u64)
        ensures
            r == self.written(),
    {
        self.write_size
    }

    fn is_write_size_available(&self) -> (r: bool)
        ensures
            r == self.is_opened(),
    {
        self.opened
    }
}

} // verus!
