//! Documents as a document source hands them over.

use vstd::prelude::*;

verus! {

/// One document of the corpus: where it came from, and its raw text if the
/// source could read it.
#[derive(Clone, Debug, PartialEq, Eq)]
pub struct Document {
    /// The identifier under which the source knows the document.
    pub path: String,
    /// The raw text, or `None` where reading it failed.
    pub content: Option<String>,
}

/// A document that its source could not read.
#[derive(Clone, Debug, PartialEq, Eq)]
pub struct DocumentReadFailure {
    /// The identifier of the unreadable document.
    pub path: String,
}

impl Document {
    /// Whether the source delivered the text.
    pub open spec fn readable(self) -> bool {
        self.content is Some
    }

    /// The raw text of a readable document.
    pub open spec fn text(self) -> Seq<char> {
        self.content->0@
    }
}

/// Whether every document was read.
pub open spec fn all_readable(docs: Seq<Document>) -> bool {
    forall|i: int| 0 <= i < docs.len() ==> (#[trigger] docs[i]).readable()
}

/// Whether `i` is the position of the first unreadable document.
pub open spec fn is_first_unreadable(docs: Seq<Document>, i: int) -> bool {
    &&& 0 <= i < docs.len()
    &&& !docs[i].readable()
    &&& all_readable(docs.take(i))
}

/// The position of the first unreadable document, where there is one.
pub open spec fn first_unreadable(docs: Seq<Document>) -> int {
    choose|i: int| is_first_unreadable(docs, i)
}

/// The raw texts of `docs`, in order.
pub open spec fn texts_of(docs: Seq<Document>) -> Seq<Seq<char>> {
    Seq::new(docs.len(), |i: int| docs[i].text())
}

/// Only one position can be the first unreadable one.
pub proof fn lemma_first_unreadable(docs: Seq<Document>, i: int)
    requires
        is_first_unreadable(docs, i),
    ensures
        first_unreadable(docs) == i,
        !all_readable(docs),
{
    let j = first_unreadable(docs);
    assert(is_first_unreadable(docs, j));
    if j < i {
        assert(docs.take(i)[j].readable());
    }
    if i < j {
        assert(docs.take(j)[i].readable());
    }
    assert(!docs[i].readable());
}

/// Takes the texts out of `docs`, or reports the first document that could
/// not be read.
pub fn collect_texts(docs: Vec<Document>) -> (r: Result<Vec<String>, DocumentReadFailure>)
    ensures
        match r {
            Ok(texts) => all_readable(docs@) && texts.deep_view() == texts_of(docs@),
            Err(e) => !all_readable(docs@) && e.path@ == docs[first_unreadable(docs@)].path@,
        },
{
    let mut texts: Vec<String> = Vec::new();
    for doc in it: docs
        invariant
            it.seq() == docs@,
            all_readable(docs@.take(it.index() as int)),
            texts.deep_view() == texts_of(docs@.take(it.index() as int)),
    {
        let ghost i = it.index() as int;
        assert(doc == docs[i]);
        assert(docs@.take(i + 1) == docs@.take(i).push(docs[i]));
        match doc.content {
            Some(text) => {
                let ghost before = texts.deep_view();
                texts.push(text);
                proof {
                    assert(texts.deep_view() == before.push(text@));
                    assert(texts_of(docs@.take(i + 1)) == texts_of(docs@.take(i)).push(
                        docs[i].text(),
                    ));
                }
            },
            None => {
                proof {
                    lemma_first_unreadable(docs@, i);
                }
                return Err(DocumentReadFailure { path: doc.path });
            },
        }
    }
    assert(docs@.take(docs.len() as int) == docs@);
    Ok(texts)
}

} // verus!
