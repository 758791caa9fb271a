use crate::header::Header;
use crate::serializer::{Serializable, SerializeError};
use crate::v1;
use crate::v2;
use crate::version::Version;
use vstd::prelude::*;

verus! {

/// Why a header and a list of entries do not make a packet.
#[derive(Debug, PartialEq, Eq, Structural, Clone, Copy)]
pub enum PacketError {
    VersionInHeaderConflicted,
    MaxRIPEntriesNumberExceeded,
}

/// The number of entries that a packet holds at most.
pub const MAX_ENTRIES: usize = 25;

/// The number of bytes that one entry takes on the wire, in either version.
pub const ENTRY_LENGTH: usize = 20;

/// An entry layout of one protocol version.
pub trait VersionedEntry: Serializable + Sized {
    /// The version whose packets carry entries of this layout.
    spec fn protocol_version() -> Version;

    /// An entry that has an encoding takes `ENTRY_LENGTH` bytes.
    proof fn lemma_wire_length(&self)
        ensures
            self.wire() matches Ok(bytes) ==> bytes.len() == ENTRY_LENGTH,
    ;
}

/// What a packet holds: its header and its entries in order.
pub struct PacketView<T> {
    pub header: Header,
    pub entries: Seq<T>,
}

/// The encodings of the entries one after the other, or the error of the
/// first entry that has none.
pub open spec fn entries_wire<T: Serializable>(entries: Seq<T>) -> Result<Seq<u8>, SerializeError>
    decreases entries.len(),
{
    if entries.len() == 0 {
        Ok(Seq::empty())
    } else {
        match entries[0].wire() {
            Err(e) => Err(e),
            Ok(first) => match entries_wire(entries.drop_first()) {
                Err(e) => Err(e),
                Ok(rest) => Ok(first + rest),
            },
        }
    }
}

/// The bytes `prefix` put before the bytes of `rest`, where `rest` has any.
pub open spec fn preceded_by(prefix: Seq<u8>, rest: Result<Seq<u8>, SerializeError>) -> Result<
    Seq<u8>,
    SerializeError,
> {
    match rest {
        Ok(bytes) => Ok(prefix + bytes),
        Err(e) => Err(e),
    }
}

impl<T: VersionedEntry> PacketView<T> {
    /// The two rules of a packet: the header names the version of the
    /// entries' layout, and there are at most `MAX_ENTRIES` entries.
    pub open spec fn well_formed(self) -> bool {
        &&& self.header.version == T::protocol_version()
        &&& self.entries.len() <= MAX_ENTRIES
    }

    /// The header's bytes and behind them the entries' bytes. A header that
    /// has no encoding is reported before an entry that has none.
    pub open spec fn wire(self) -> Result<Seq<u8>, SerializeError> {
        match self.header.wire() {
            Err(e) => Err(e),
            Ok(head) => match entries_wire(self.entries) {
                Err(e) => Err(e),
                Ok(body) => Ok(head + body),
            },
        }
    }
}

/// Entries that all have an encoding take `ENTRY_LENGTH` bytes each.
pub proof fn lemma_entries_wire_length<T: VersionedEntry>(entries: Seq<T>)
    ensures
        entries_wire(entries) matches Ok(bytes) ==> bytes.len() == ENTRY_LENGTH * entries.len(),
    decreases entries.len(),
{
    if entries.len() > 0 {
        entries[0].lemma_wire_length();
        lemma_entries_wire_length(entries.drop_first());
    }
}

/// A packet that has an encoding takes four bytes for the header and
/// `ENTRY_LENGTH` bytes for each entry.
pub proof fn lemma_wire_length<T: VersionedEntry>(packet: PacketView<T>)
    ensures
        packet.wire() matches Ok(bytes) ==> bytes.len() == 4 + ENTRY_LENGTH * packet.entries.len(),
{
    lemma_entries_wire_length(packet.entries);
}

/// A header with the entries that follow it. Every packet keeps the two
/// rules of `PacketView::well_formed`.
#[derive(PartialEq, Debug)]
pub struct Packet<T: VersionedEntry> {
    header: Header,
    entries: Vec<T>,
}

impl<T: VersionedEntry> View for Packet<T> {
    type V = PacketView<T>;

    closed spec fn view(&self) -> PacketView<T> {
        PacketView { header: self.header, entries: self.entries@ }
    }
}

/// The outcome of a constructor, with the packet taken by its view.
pub open spec fn assembled<T: VersionedEntry>(r: Result<Packet<T>, PacketError>) -> Result<
    PacketView<T>,
    PacketError,
> {
    match r {
        Ok(packet) => Ok(packet@),
        Err(e) => Err(e),
    }
}

/// What assembling a packet for the version `expected` comes to. A header
/// of another version is reported before too many entries.
pub open spec fn assemble<T>(header: Header, entries: Seq<T>, expected: Version) -> Result<
    PacketView<T>,
    PacketError,
> {
    if header.version != expected {
        Err(PacketError::VersionInHeaderConflicted)
    } else if entries.len() > MAX_ENTRIES {
        Err(PacketError::MaxRIPEntriesNumberExceeded)
    } else {
        Ok(PacketView { header, entries })
    }
}

impl<T: VersionedEntry> Packet<T> {
    #[verifier::type_invariant]
    spec fn keeps_rules(self) -> bool {
        self@.well_formed()
    }

    fn new(header: Header, entries: Vec<T>) -> (r: Result<Self, PacketError>)
        requires
            header.version == T::protocol_version(),
        ensures
            assembled(r) == assemble(header, entries@, T::protocol_version()),
    {
        if entries.len() > MAX_ENTRIES {
            return Err(PacketError::MaxRIPEntriesNumberExceeded);
        }
        Ok(Packet { header, entries })
    }

    pub fn get_header(&self) -> (header: &Header)
        ensures
            *header == self@.header,
            header.version == T::protocol_version(),
    {
        proof {
            use_type_invariant(self);
        }
        &self.header
    }

    pub fn get_entries(&self) -> (entries: &Vec<T>)
        ensures
            entries@ == self@.entries,
            entries@.len() <= MAX_ENTRIES,
    {
        proof {
            use_type_invariant(self);
        }
        &self.entries
    }
}

impl<T: VersionedEntry> Serializable for Packet<T> {
    open spec fn wire(&self) -> Result<Seq<u8>, SerializeError> {
        self@.wire()
    }

    fn to_bytes(&self) -> (r: Result<Vec<u8>, SerializeError>) {
        let mut bytes = self.get_header().to_bytes()?;
        let entries = self.get_entries();
        let mut entries_bytes: Vec<u8> = Vec::new();
        let mut done: usize = 0;
        assert(entries@.skip(0) =~= entries@);
        while done < entries.len()
            invariant
                done <= entries.len(),
                entries@ == self@.entries,
                self@.header.wire() == Ok::<Seq<u8>, SerializeError>(bytes@),
                entries_wire(entries@) == preceded_by(
                    entries_bytes@,
                    entries_wire(entries@.skip(done as int)),
                ),
            decreases entries.len() - done,
        {
            let ghost before = entries_bytes@;
            let ghost rest = entries@.skip(done as int);
            assert(rest[0] == entries@[done as int]);
            assert(rest.drop_first() =~= entries@.skip(done + 1));
            let mut entry_bytes = entries[done].to_bytes()?;
            let ghost one = entry_bytes@;
            entries_bytes.append(&mut entry_bytes);
            proof {
                match entries_wire(entries@.skip(done + 1)) {
                    Ok(tail) => {
                        assert((before + one) + tail =~= before + (one + tail));
                    },
                    Err(_) => {},
                }
            }
            done = done + 1;
        }
        assert(entries_bytes@ + Seq::<u8>::empty() =~= entries_bytes@);
        bytes.append(&mut entries_bytes);
        Ok(bytes)
    }
}

impl Packet<v1::Entry> {
    pub fn make_v1_packet(header: Header, entries: Vec<v1::Entry>) -> (r: Result<
        Self,
        PacketError,
    >)
        ensures
            assembled(r) == assemble(header, entries@, Version::Version1),
    {
        let ver = header.get_version();
        if ver != Version::Version1 {
            return Err(PacketError::VersionInHeaderConflicted);
        }
        Packet::new(header, entries)
    }
}

impl Packet<v2::Entry> {
    pub fn make_v2_packet(header: Header, entries: Vec<v2::Entry>) -> (r: Result<
        Self,
        PacketError,
    >)
        ensures
            assembled(r) == assemble(header, entries@, Version::Version2),
    {
        let ver = header.get_version();
        if ver != Version::Version2 {
            return Err(PacketError::VersionInHeaderConflicted);
        }
        Packet::new(header, entries)
    }
}

} // verus!
