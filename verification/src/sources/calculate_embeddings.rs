//! The embedder: forms one document per item, gathers the documents into
//! batches for the model, and pairs the vectors that come back with their
//! items.
//!
//! The model is driven from outside: the embedder says when a batch is due,
//! lends the documents, and takes the vectors.

use vstd::prelude::*;
use vstd::string::*;
use std::sync::atomic::Ordering;
use crate::Item;
use crate::sources::pipeline::count_of;
use crate::sources::pipeline::ScanItem;
use crate::sources::pipeline::ScanStats;
use crate::text;

verus! {

/// A vector of 32-bit IEEE 754 numbers, each held as its bit pattern.
pub type Embedding = Vec<u32>;

/// An item as it leaves the embedder, with its vector where it got one.
#[derive(Debug, Clone, PartialEq, Eq)]
pub struct Embedded {
    pub item: ScanItem,
    pub embedding: Option<Embedding>,
}

/// `parts` joined by line feeds.
pub open spec fn join_lines(parts: Seq<Seq<char>>) -> Seq<char>
    decreases parts.len(),
{
    if parts.len() == 0 {
        Seq::empty()
    } else if parts.len() == 1 {
        parts[0]
    } else {
        join_lines(parts.drop_last()) + seq!['\n'] + parts.last()
    }
}

/// `parts`, and then `part` where it is there and not blank.
pub open spec fn with_part(parts: Seq<Seq<char>>, part: Option<String>) -> Seq<Seq<char>> {
    match part {
        Some(p) => if text::is_blank(p@) {
            parts
        } else {
            parts.push(p@)
        },
        None => parts,
    }
}

/// Name, description and content of an item, without those that are
/// missing or blank.
pub open spec fn document_parts(item: Item) -> Seq<Seq<char>> {
    with_part(
        with_part(with_part(Seq::empty(), item.metadata.name), item.metadata.description),
        item.content,
    )
}

/// The text that stands for an item before the model. An item with neither
/// name nor description is its trimmed content. Any other is the lines of
/// its name, description and content, as far as they are not blank; where
/// all are, the item has no document.
pub open spec fn document_of(item: Item) -> Option<Seq<char>> {
    if item.metadata.name is None && item.metadata.description is None {
        match item.content {
            Some(c) => Some(text::trimmed(c@)),
            None => None,
        }
    } else if document_parts(item).len() == 0 {
        None
    } else {
        Some(join_lines(document_parts(item)))
    }
}

/// Whether the embedder hands an item to the model: the item is new or
/// changed, is not skipped, and has a document.
pub open spec fn wants_embedding(scan_item: ScanItem) -> bool {
    &&& scan_item.state is New || scan_item.state is Changed
    &&& scan_item.item.skipped is None
    &&& document_of(scan_item.item) is Some
}

fn append_part(doc: &mut String, part: &Option<String>, Ghost(parts): Ghost<Seq<Seq<char>>>) -> (r:
    Ghost<Seq<Seq<char>>>)
    requires
        old(doc)@ == join_lines(parts),
        forall|i: int| 0 <= i < parts.len() ==> (#[trigger] parts[i]).len() > 0,
    ensures
        r@ == with_part(parts, *part),
        final(doc)@ == join_lines(r@),
        forall|i: int| 0 <= i < r@.len() ==> (#[trigger] r@[i]).len() > 0,
{
    match part {
        Some(p) => {
            if text::blank(p.as_str()) {
                Ghost(parts)
            } else {
                proof {
                    reveal_strlit("\n");
                    text::lemma_leading_whitespace_bound(p@);
                    assert(parts.push(p@).drop_last() == parts);
                    if parts.len() > 0 {
                        lemma_join_lines_not_empty(parts);
                    }
                }
                if doc.as_str().unicode_len() > 0 {
                    doc.append("\n");
                    assert("\n"@ == seq!['\n']);
                }
                doc.append(p.as_str());
                assert(doc@ == join_lines(parts.push(p@))) by {
                    if parts.len() == 0 {
                        assert(Seq::<char>::empty() + p@ == p@);
                    }
                }
                Ghost(parts.push(p@))
            }
        },
        None => Ghost(parts),
    }
}

/// Lines that are not empty do not join to an empty text.
pub proof fn lemma_join_lines_not_empty(parts: Seq<Seq<char>>)
    requires
        parts.len() > 0,
        forall|i: int| 0 <= i < parts.len() ==> (#[trigger] parts[i]).len() > 0,
    ensures
        join_lines(parts).len() > 0,
{
    if parts.len() == 1 {
    } else {
        assert(join_lines(parts) == join_lines(parts.drop_last()) + seq!['\n'] + parts.last());
    }
}

/// Forms the document of an item.
pub fn compose_document(item: &Item) -> (r: Option<String>)
    ensures
        match (r, document_of(*item)) {
            (Some(doc), Some(text)) => doc@ == text,
            (None, None) => true,
            _ => false,
        },
{
    if item.metadata.name.is_none() && item.metadata.description.is_none() {
        match &item.content {
            Some(c) => Some(String::from_str(text::trim(c.as_str()))),
            None => None,
        }
    } else {
        let mut doc = String::new();
        let parts = append_part(&mut doc, &item.metadata.name, Ghost(Seq::empty()));
        let parts = append_part(&mut doc, &item.metadata.description, parts);
        let parts = append_part(&mut doc, &item.content, parts);
        if doc.as_str().unicode_len() == 0 {
            proof {
                if parts@.len() > 0 {
                    lemma_join_lines_not_empty(parts@);
                }
            }
            None
        } else {
            Some(doc)
        }
    }
}

/// What the caller of [`Embedder::accept`] has to do next.
#[derive(Debug, Clone, PartialEq, Eq)]
pub enum EmbedAction {
    /// The item gets no vector: pass it on as it is.
    Forward(Embedded),
    /// The item waits in the batch, which has room for more.
    Wait,
    /// The item waits in the batch, which is now full: encode the documents
    /// and call [`Embedder::complete`].
    Encode,
}

/// Gathers the items that await a vector, with their documents.
pub struct Embedder {
    batch: Vec<ScanItem>,
    documents: Vec<String>,
    batch_size: usize,
}

impl Embedder {
    /// The items that wait for their vectors, oldest first.
    pub closed spec fn waiting(&self) -> Seq<ScanItem> {
        self.batch@
    }

    /// The documents of the waiting items, in the same order.
    pub closed spec fn texts(&self) -> Seq<String> {
        self.documents@
    }

    /// The number of waiting items at which the model is called.
    pub closed spec fn batch_size(&self) -> nat {
        self.batch_size as nat
    }

    /// There is one document per waiting item, and it is that item's.
    pub open spec fn well_formed(&self) -> bool {
        &&& self.texts().len() == self.waiting().len()
        &&& forall|i: int|
            0 <= i < self.waiting().len() ==> wants_embedding(#[trigger] self.waiting()[i])
                && document_of(self.waiting()[i].item) == Some(self.texts()[i]@)
    }

    pub fn new(batch_size: usize) -> (r: Self)
        ensures
            r.well_formed(),
            r.waiting().len() == 0,
            r.batch_size() == batch_size,
    {
        Embedder { batch: Vec::new(), documents: Vec::new(), batch_size }
    }

    /// Takes one item in. An item that wants no vector is handed back at
    /// once. Any other joins the batch with its document, and the answer says
    /// whether the batch is then full.
    pub fn accept(&mut self, scan_item: ScanItem) -> (r: EmbedAction)
        requires
            old(self).well_formed(),
        ensures
            final(self).well_formed(),
            final(self).batch_size() == old(self).batch_size(),
            !wants_embedding(scan_item) ==> {
                &&& r == EmbedAction::Forward(Embedded { item: scan_item, embedding: None })
                &&& final(self).waiting() == old(self).waiting()
                &&& final(self).texts() == old(self).texts()
            },
            wants_embedding(scan_item) ==> {
                &&& final(self).waiting() == old(self).waiting().push(scan_item)
                &&& final(self).texts().len() == old(self).texts().len() + 1
                &&& final(self).texts().drop_last() == old(self).texts()
                &&& if final(self).waiting().len() < old(self).batch_size() {
                    r is Wait
                } else {
                    r is Encode
                }
            },
    {
        let embeds = match &scan_item.state {
            crate::sources::pipeline::ScanItemState::New => true,
            crate::sources::pipeline::ScanItemState::Changed(_) => true,
            _ => false,
        };
        if !embeds || scan_item.item.skipped.is_some() {
            return EmbedAction::Forward(Embedded { item: scan_item, embedding: None });
        }
        match compose_document(&scan_item.item) {
            None => EmbedAction::Forward(Embedded { item: scan_item, embedding: None }),
            Some(document) => {
                self.documents.push(document);
                self.batch.push(scan_item);
                if self.batch.len() < self.batch_size {
                    EmbedAction::Wait
                } else {
                    EmbedAction::Encode
                }
            },
        }
    }

    /// Whether any item waits. When the input has ended and this holds, the
    /// documents are encoded one last time.
    pub fn has_waiting(&self) -> (r: bool)
        ensures
            r == (self.waiting().len() > 0),
    {
        self.batch.len() > 0
    }

    /// The documents to encode, one per waiting item.
    pub fn documents(&self) -> (r: &Vec<String>)
        ensures
            r@ == self.texts(),
    {
        &self.documents
    }

    /// Pairs the waiting items with the vectors that the model returned for
    /// their documents, first with first, and empties the batch. Where the
    /// model returned fewer vectors than items wait, the items beyond leave
    /// the scan; vectors beyond the items are ignored.
    pub fn complete(&mut self, embeddings: Vec<Embedding>) -> (r: Vec<Embedded>)
        requires
            old(self).well_formed(),
        ensures
            final(self).well_formed(),
            final(self).batch_size() == old(self).batch_size(),
            final(self).waiting().len() == 0,
            r@.len() == if embeddings@.len() < old(self).waiting().len() {
                embeddings@.len()
            } else {
                old(self).waiting().len()
            },
            forall|i: int|
                0 <= i < r.len() ==> #[trigger] r[i] == (Embedded {
                    item: old(self).waiting()[i],
                    embedding: Some(embeddings[i]),
                }),
    {
        let mut items: Vec<ScanItem> = Vec::new();
        std::mem::swap(&mut self.batch, &mut items);
        self.documents.clear();
        let ghost waiting = items@;
        let ghost vectors = embeddings@;
        let mut out: Vec<Embedded> = Vec::new();
        let mut vectors_left = reversed(embeddings);
        for scan_item in it: items
            invariant
                it.seq() == waiting,
                out@.len() == if vectors.len() < it.index() {
                    vectors.len()
                } else {
                    it.index() as nat
                },
                vectors_left@.len() == vectors.len() - out@.len(),
                forall|k: int|
                    0 <= k < vectors_left@.len() ==> vectors_left@[k] == vectors[vectors.len() - 1
                        - k],
                forall|i: int|
                    0 <= i < out@.len() ==> #[trigger] out@[i] == (Embedded {
                        item: waiting[i],
                        embedding: Some(vectors[i]),
                    }),
        {
            match vectors_left.pop() {
                Some(vector) => {
                    out.push(Embedded { item: scan_item, embedding: Some(vector) });
                },
                None => {},
            }
        }
        out
    }
}

/// The elements of `v`, last first.
fn reversed<T>(v: Vec<T>) -> (r: Vec<T>)
    ensures
        r@.len() == v@.len(),
        forall|k: int| 0 <= k < r@.len() ==> r@[k] == v@[v@.len() - 1 - k],
{
    let mut rest = v;
    let mut out: Vec<T> = Vec::new();
    while rest.len() > 0
        invariant
            rest@.len() + out@.len() == v@.len(),
            forall|k: int| 0 <= k < rest@.len() ==> rest@[k] == v@[k],
            forall|k: int| 0 <= k < out@.len() ==> out@[k] == v@[v@.len() - 1 - k],
        decreases rest@.len(),
    {
        match rest.pop() {
            Some(x) => {
                out.push(x);
            },
            None => {},
        }
    }
    out
}

/// Tells the observers that `documents` documents are with the model.
pub fn note_encoding_started(stats: &ScanStats, documents: usize) {
    let n = count_of(documents);
    stats.embedding.fetch_add(n, Ordering::Relaxed);
}

/// Tells the observers that the model is done with `documents` documents and
/// returned `vectors` vectors.
pub fn note_encoding_finished(stats: &ScanStats, documents: usize, vectors: usize) {
    let n = count_of(documents);
    let m = count_of(vectors);
    stats.embedding.fetch_sub(n, Ordering::Relaxed);
    stats.encoded.fetch_add(m, Ordering::Relaxed);
}

} // verus!
