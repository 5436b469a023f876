//! The metadata delivered by the ingestion side: one entry per markdown
//! file, keyed by file name, with the hyperlink counts from which edges are
//! built. The store is the sole input of graph construction.

use vstd::prelude::*;

verus! {

/// One file's metadata as the producer delivers it. Timestamps and the
/// fractional display size arrive already rendered as text; the verified
/// core only carries them into the node's metadata map.
#[derive(Debug, Clone)]
pub struct Metadata {
    pub file_name: String,
    pub file_size: u64,
    pub node_size: String,
    pub hyperlink_count: u64,
    pub sha1: String,
    /// The stable numeric node id to reuse across rebuilds, if one was
    /// recorded.
    pub node_id: Option<u32>,
    pub last_modified: String,
    pub perplexity_link: String,
    pub last_perplexity_process: Option<String>,
    /// How often this file links to each named file.
    pub topic_counts: Vec<(String, u64)>,
}

/// The mathematical image of one entry.
#[verifier::ext_equal]
pub ghost struct MetadataView {
    pub file_name: Seq<char>,
    pub file_size: u64,
    pub node_size: Seq<char>,
    pub hyperlink_count: u64,
    pub sha1: Seq<char>,
    pub node_id: Option<u32>,
    pub last_modified: Seq<char>,
    pub perplexity_link: Seq<char>,
    pub last_perplexity_process: Option<Seq<char>>,
    pub topic_counts: Seq<(Seq<char>, u64)>,
}

/// The per-topic view of a count list.
pub open spec fn topics_view(s: Seq<(String, u64)>) -> Seq<(Seq<char>, u64)> {
    s.map_values(|p: (String, u64)| (p.0@, p.1))
}

impl View for Metadata {
    type V = MetadataView;

    open spec fn view(&self) -> MetadataView {
        MetadataView {
            file_name: self.file_name@,
            file_size: self.file_size,
            node_size: self.node_size@,
            hyperlink_count: self.hyperlink_count,
            sha1: self.sha1@,
            node_id: self.node_id,
            last_modified: self.last_modified@,
            perplexity_link: self.perplexity_link@,
            last_perplexity_process: match self.last_perplexity_process {
                Some(p) => Some(p@),
                None => None,
            },
            topic_counts: topics_view(self.topic_counts@),
        }
    }
}

/// The view of a whole entry list.
pub open spec fn entries_view(s: Seq<Metadata>) -> Seq<MetadataView> {
    s.map_values(|m: Metadata| m@)
}

/// The metadata of every known file, keyed by file name. Entry order is
/// the producer's insertion order and fixes the node order of a built
/// graph.
#[derive(Debug, Clone)]
pub struct MetadataStore {
    pub entries: Vec<Metadata>,
}

impl View for MetadataStore {
    type V = Seq<MetadataView>;

    open spec fn view(&self) -> Seq<MetadataView> {
        entries_view(self.entries@)
    }
}

/// Map discipline on a view: file names are unique, and so are the stored
/// node ids, which also leave room above them for fresh ids.
pub open spec fn store_wf(entries: Seq<MetadataView>) -> bool {
    &&& forall|i: int, j: int|
        0 <= i < j < entries.len() ==> entries[i].file_name != entries[j].file_name
    &&& forall|i: int, j: int|
        0 <= i < j < entries.len() && entries[i].node_id is Some && entries[j].node_id is Some
            ==> entries[i].node_id != entries[j].node_id
    &&& forall|i: int|
        0 <= i < entries.len() ==> match #[trigger] entries[i].node_id {
            Some(v) => v < 0xF000_0000u32,
            None => true,
        }
}

impl MetadataStore {
    /// An empty store.
    pub fn new() -> (r: MetadataStore)
        ensures
            r@ == Seq::<MetadataView>::empty(),
            store_wf(r@),
    {
        let r = MetadataStore { entries: Vec::new() };
        proof {
            assert(r@ =~= Seq::<MetadataView>::empty());
        }
        r
    }

    /// How many files the store describes.
    pub fn len(&self) -> (r: usize)
        ensures
            r == self@.len(),
    {
        self.entries.len()
    }

    /// Inserts an entry under its file name: replaces the entry with the
    /// same name if one exists, otherwise appends.
    pub fn insert(&mut self, m: Metadata)
        ensures
            final(self)@ == spec_store_insert(old(self)@, m@),
    {
        let ghost orig = self@;
        let ghost mv = m@;
        let mut found: Option<usize> = None;
        let mut i: usize = 0;
        while i < self.entries.len() && found.is_none()
            invariant
                i <= self.entries@.len(),
                self@ == orig,
                mv == m@,
                match found {
                    Some(f) => f == i && i < orig.len() && orig[f as int].file_name
                        == mv.file_name && forall|k: int|
                        0 <= k < f ==> orig[k].file_name != mv.file_name,
                    None => forall|k: int| 0 <= k < i ==> orig[k].file_name != mv.file_name,
                },
            decreases self.entries@.len() - i + (if found is Some { 0int } else { 1int }),
        {
            if string_eq(&self.entries[i].file_name, &m.file_name) {
                found = Some(i);
            } else {
                i = i + 1;
            }
        }
        match found {
            Some(f) => {
                proof {
                    assert(0 <= f < orig.len() && orig[f as int].file_name == mv.file_name
                        && forall|k: int| 0 <= k < f ==> orig[k].file_name != mv.file_name);
                    let j = choose|j: int|
                        0 <= j < orig.len() && orig[j].file_name == mv.file_name && forall|k: int|
                            0 <= k < j ==> orig[k].file_name != mv.file_name;
                    if j < f {
                        assert(orig[j].file_name == mv.file_name);
                        assert(false);
                    }
                    if j > f {
                        assert(orig[f as int].file_name != mv.file_name);
                        assert(false);
                    }
                    assert(j == f);
                }
                self.entries.set(f, m);
                proof {
                    assert(self@ =~= orig.update(f as int, mv));
                    assert(self@ == spec_store_insert(orig, mv));
                }
            },
            None => {
                self.entries.push(m);
                proof {
                    assert(self@ =~= orig.push(mv));
                    assert(self@ == spec_store_insert(orig, mv));
                }
            },
        }
    }
}

/// Insertion on the view: update in place under an existing name, else
/// append.
pub open spec fn spec_store_insert(entries: Seq<MetadataView>, m: MetadataView) -> Seq<
    MetadataView,
> {
    if exists|i: int| 0 <= i < entries.len() && entries[i].file_name == m.file_name {
        let i = choose|i: int|
            0 <= i < entries.len() && entries[i].file_name == m.file_name && forall|k: int|
                0 <= k < i ==> entries[k].file_name != m.file_name;
        entries.update(i, m)
    } else {
        entries.push(m)
    }
}

/// String equality, visible to specifications through the views.
pub fn string_eq(a: &String, b: &String) -> (r: bool)
    ensures
        r == (a@ == b@),
{
    a.eq(b)
}

} // verus!
