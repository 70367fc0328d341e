//! Index revisions: the packs that are valid, the packs staged for deletion,
//! the earlier revisions that a revision replaces, and the rule that says
//! which fields the stored form of a revision holds.

use vstd::prelude::*;
use crate::id::Id;
use crate::pack::{IndexPack, PackView};

verus! {

/// The kinds of files that a repository stores.
#[derive(Clone, Copy, Debug, PartialEq, Eq, Hash, Structural)]
pub enum FileType {
    Config,
    Index,
    Key,
    Snapshot,
    Pack,
}

/// The views of a sequence of packs, in the same order.
pub open spec fn pack_views(packs: Seq<IndexPack>) -> Seq<PackView> {
    packs.map_values(|p: IndexPack| p@)
}

/// What an index revision holds, as mathematical values.
pub struct FileView {
    pub supersedes: Option<Seq<Id>>,
    pub packs: Seq<PackView>,
    pub packs_to_delete: Seq<PackView>,
}

/// What the stored form of an index revision holds, as mathematical values.
/// `None` stands for a field that the stored form leaves out.
pub struct RecordView {
    pub supersedes: Option<Seq<Id>>,
    pub packs: Seq<PackView>,
    pub packs_to_delete: Option<Seq<PackView>>,
}

impl FileView {
    /// Whether an earlier revision with identifier `id` is replaced by this
    /// one, so that a reader who adopts this one must drop it.
    pub open spec fn replaces(&self, id: Id) -> bool {
        self.supersedes is Some && self.supersedes->Some_0.contains(id)
    }

    /// The revision as it reads after it was stored: a list of replaced
    /// revisions that names none counts as absent.
    pub open spec fn canonical(&self) -> FileView {
        FileView {
            supersedes: if self.supersedes == Some(Seq::<Id>::empty()) {
                None
            } else {
                self.supersedes
            },
            ..*self
        }
    }

    /// The stored form of the revision. The list of replaced revisions is
    /// left out when it is absent or empty, the packs staged for deletion
    /// are left out when there are none, the valid packs are always there.
    pub open spec fn encode(&self) -> RecordView {
        RecordView {
            supersedes: self.canonical().supersedes,
            packs: self.packs,
            packs_to_delete: if self.packs_to_delete.len() == 0 {
                None
            } else {
                Some(self.packs_to_delete)
            },
        }
    }
}

impl RecordView {
    /// Whether every field that is there holds something: the form that
    /// `FileView::encode` writes.
    pub open spec fn is_minimal(&self) -> bool {
        &&& self.supersedes != Some(Seq::<Id>::empty())
        &&& self.packs_to_delete != Some(Seq::<PackView>::empty())
    }

    /// The revision that the stored form stands for. A missing list of
    /// packs staged for deletion reads as the empty list; the list of
    /// replaced revisions is taken as it stands.
    pub open spec fn decode(&self) -> FileView {
        FileView {
            supersedes: self.supersedes,
            packs: self.packs,
            packs_to_delete: match self.packs_to_delete {
                Some(packs) => packs,
                None => Seq::empty(),
            },
        }
    }
}

/// Storing a revision and reading it back gives the same valid packs, the
/// same packs staged for deletion and the same replaced revisions; only a
/// list of replaced revisions that names none comes back as absent.
pub proof fn lemma_encode_decode(file: FileView)
    ensures
        file.encode().decode() == file.canonical(),
        file.supersedes != Some(Seq::<Id>::empty()) ==> file.encode().decode() == file,
        file.supersedes is None ==> file.encode().supersedes is None
            && file.encode().decode().supersedes is None,
        file.packs_to_delete.len() == 0 ==> file.encode().packs_to_delete is None
            && file.encode().decode().packs_to_delete.len() == 0,
        file.encode().is_minimal(),
{
    let back = file.encode().decode();
    assert(back.packs_to_delete =~= file.packs_to_delete);
    if file.encode().packs_to_delete == Some(Seq::<PackView>::empty()) {
        assert(file.packs_to_delete.len() == 0);
    }
}

/// Reading a stored form and storing the result gives the same stored form,
/// provided that no field of it is there and empty.
pub proof fn lemma_decode_encode(record: RecordView)
    requires
        record.is_minimal(),
    ensures
        record.decode().encode() == record,
{
    match record.packs_to_delete {
        Some(packs) => {
            assert(packs.len() != 0) by {
                if packs.len() == 0 {
                    assert(packs =~= Seq::<PackView>::empty());
                }
            }
        },
        None => {},
    }
}

/// One revision of the index.
#[derive(Debug)]
pub struct IndexFile {
    /// The earlier revisions that this one replaces, if any.
    pub supersedes: Option<Vec<Id>>,
    /// The valid packs, in the order they were added.
    pub packs: Vec<IndexPack>,
    /// The packs whose deletion is announced and not yet carried out.
    pub packs_to_delete: Vec<IndexPack>,
}

/// The fields of the stored form of an index revision. `None` in an optional
/// field says that the stored form leaves the field out.
#[derive(Debug)]
pub struct IndexRecord {
    pub supersedes: Option<Vec<Id>>,
    pub packs: Vec<IndexPack>,
    pub packs_to_delete: Option<Vec<IndexPack>>,
}

impl View for IndexFile {
    type V = FileView;

    open spec fn view(&self) -> FileView {
        FileView {
            supersedes: match self.supersedes {
                Some(ids) => Some(ids@),
                None => None,
            },
            packs: pack_views(self.packs@),
            packs_to_delete: pack_views(self.packs_to_delete@),
        }
    }
}

impl View for IndexRecord {
    type V = RecordView;

    open spec fn view(&self) -> RecordView {
        RecordView {
            supersedes: match self.supersedes {
                Some(ids) => Some(ids@),
                None => None,
            },
            packs: pack_views(self.packs@),
            packs_to_delete: match self.packs_to_delete {
                Some(packs) => Some(pack_views(packs@)),
                None => None,
            },
        }
    }
}

impl Default for IndexFile {
    /// The empty revision: no packs, none staged for deletion, nothing
    /// replaced.
    fn default() -> (file: IndexFile)
        ensures
            file@ == (FileView {
                supersedes: None,
                packs: Seq::empty(),
                packs_to_delete: Seq::empty(),
            }),
    {
        let file = IndexFile { supersedes: None, packs: Vec::new(), packs_to_delete: Vec::new() };
        proof {
            assert(file@.packs =~= Seq::<PackView>::empty());
            assert(file@.packs_to_delete =~= Seq::<PackView>::empty());
        }
        file
    }
}

impl IndexFile {
    /// The kind of repository file that holds an index revision.
    pub fn file_type() -> (kind: FileType)
        ensures
            kind == FileType::Index,
    {
        FileType::Index
    }

    /// Appends `p` behind the valid packs. The packs already there keep
    /// their places, and nothing else changes.
    pub fn add(&mut self, p: IndexPack)
        ensures
            final(self)@ == (FileView { packs: old(self)@.packs.push(p@), ..old(self)@ }),
            final(self).packs@ == old(self).packs@.push(p),
    {
        proof {
            assert(pack_views(self.packs@.push(p)) =~= pack_views(self.packs@).push(p@));
        }
        self.packs.push(p);
    }

    /// Whether this revision replaces the earlier revision named `id`.
    pub fn replaces(&self, id: &Id) -> (found: bool)
        ensures
            found == self@.replaces(*id),
    {
        match &self.supersedes {
            None => false,
            Some(ids) => {
                let n: usize = ids.len();
                let mut i: usize = 0;
                while i < n
                    invariant
                        self.supersedes == Some(*ids),
                        n == ids@.len(),
                        i <= n,
                        forall|j: int| 0 <= j < i ==> ids@[j] != *id,
                    decreases n - i,
                {
                    if ids[i] == *id {
                        proof {
                            assert(ids@[i as int] == *id);
                        }
                        return true;
                    }
                    i += 1;
                }
                false
            },
        }
    }

    /// The fields of the stored form of the revision.
    pub fn into_record(self) -> (record: IndexRecord)
        ensures
            record@ == self@.encode(),
    {
        let IndexFile { supersedes, packs, packs_to_delete } = self;
        let supersedes = match supersedes {
            Some(ids) => {
                if ids.len() == 0 {
                    proof {
                        assert(ids@ =~= Seq::<Id>::empty());
                    }
                    None
                } else {
                    Some(ids)
                }
            },
            None => None,
        };
        let packs_to_delete = if packs_to_delete.len() == 0 {
            None
        } else {
            Some(packs_to_delete)
        };
        IndexRecord { supersedes, packs, packs_to_delete }
    }

    /// The revision that the fields of a stored form stand for.
    pub fn from_record(record: IndexRecord) -> (file: IndexFile)
        ensures
            file@ == record@.decode(),
    {
        let IndexRecord { supersedes, packs, packs_to_delete } = record;
        let packs_to_delete = match packs_to_delete {
            Some(packs) => packs,
            None => Vec::new(),
        };
        proof {
            if record.packs_to_delete is None {
                assert(pack_views(packs_to_delete@) =~= Seq::<PackView>::empty());
            }
        }
        IndexFile { supersedes, packs, packs_to_delete }
    }
}

} // verus!
