//! Program identifiers and the registry that maps them to program binaries.

use vstd::prelude::*;

verus! {

/// The name of a registered program: 32 opaque bytes. Two identifiers are
/// the same when all their bytes are.
#[derive(Clone, Copy, Debug, PartialEq, Eq)]
pub struct ProgramId {
    bytes: [u8; 32],
}

impl View for ProgramId {
    type V = Seq<u8>;

    closed spec fn view(&self) -> Seq<u8> {
        self.bytes@
    }
}

impl ProgramId {
    /// The identifier made of `bytes`.
    pub fn new(bytes: [u8; 32]) -> (id: ProgramId)
        ensures
            id@ == bytes@,
    {
        ProgramId { bytes }
    }

    /// The bytes of the identifier.
    pub fn as_bytes(&self) -> (bytes: [u8; 32])
        ensures
            bytes@ == self@,
    {
        self.bytes
    }

    /// Whether the two identifiers have the same bytes.
    pub fn same_as(&self, other: &ProgramId) -> (same: bool)
        ensures
            same == (self@ == other@),
    {
        let mut i: usize = 0;
        while i < 32
            invariant
                i <= 32,
                forall|k: int| 0 <= k < i ==> self.bytes@[k] == other.bytes@[k],
            decreases 32 - i,
        {
            if self.bytes[i] != other.bytes[i] {
                return false;
            }
            i = i + 1;
        }
        assert(self.bytes@ =~= other.bytes@);
        true
    }
}

/// One entry handed to the registry: an identifier and the program binary
/// it names.
pub struct RegistryEntry {
    pub id: ProgramId,
    pub program: Vec<u8>,
}

/// The mapping that a list of entries stands for: each identifier maps to
/// the binary of the last entry that names it.
pub open spec fn entries_map(entries: Seq<RegistryEntry>) -> Map<Seq<u8>, Seq<u8>>
    decreases entries.len(),
{
    if entries.len() == 0 {
        Map::empty()
    } else {
        entries_map(entries.drop_last()).insert(entries.last().id@, entries.last().program@)
    }
}

/// A read-only mapping from program identifiers to program binaries, filled
/// once when it is made.
pub struct ProgramRegistry {
    entries: Vec<RegistryEntry>,
}

impl View for ProgramRegistry {
    type V = Map<Seq<u8>, Seq<u8>>;

    closed spec fn view(&self) -> Map<Seq<u8>, Seq<u8>> {
        entries_map(self.entries@)
    }
}

impl ProgramRegistry {
    /// The registry that holds `entries`. Where two entries name the same
    /// identifier, the later one counts.
    pub fn new(entries: Vec<RegistryEntry>) -> (registry: ProgramRegistry)
        ensures
            registry@ == entries_map(entries@),
    {
        ProgramRegistry { entries }
    }

    /// The binary registered under `id`, if there is one.
    pub fn lookup(&self, id: &ProgramId) -> (found: Option<&Vec<u8>>)
        ensures
            found matches Some(program) ==> self@.contains_key(id@) && program@ == self@[id@],
            found is None ==> !self@.contains_key(id@),
    {
        let mut i: usize = self.entries.len();
        assert(self.entries@.take(i as int) =~= self.entries@);
        while i > 0
            invariant
                i <= self.entries@.len(),
                self@ == entries_map(self.entries@),
                entries_map(self.entries@).contains_key(id@) <==> entries_map(
                    self.entries@.take(i as int),
                ).contains_key(id@),
                entries_map(self.entries@).contains_key(id@) ==> entries_map(self.entries@)[id@]
                    == entries_map(self.entries@.take(i as int))[id@],
            decreases i,
        {
            let ghost prefix = self.entries@.take(i as int);
            assert(prefix.drop_last() =~= self.entries@.take(i - 1));
            assert(prefix.last() == self.entries@[i - 1]);
            i = i - 1;
            if self.entries[i].id.same_as(id) {
                return Some(&self.entries[i].program);
            }
        }
        assert(self.entries@.take(0).len() == 0);
        None
    }
}

} // verus!
