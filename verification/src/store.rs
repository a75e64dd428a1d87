//! The document store: the process-wide concurrent map from document URI to
//! the current (tree, text) pair. The map itself is dashmap's, reached
//! through trusted wrappers; everything said about its contents is stated
//! over a mathematical map from URI to entry.

use crate::treesitter::SyntaxTree;
use dashmap::DashMap;
use vstd::prelude::*;
use vstd::string::StringSliceAdditionalSpecFns;

verus! {

/// The UTF-8 bytes of an owned string, the unit in which node spans are
/// measured.
pub open spec fn text_bytes(s: String) -> Seq<u8> {
    vstd::utf8::encode_utf8(s@)
}

/// The current state of one open document: its syntax tree and the exact
/// source text the tree was produced from.
#[derive(Clone)]
pub struct DocumentEntry {
    pub ast: SyntaxTree,
    pub source_code: String,
}

impl DocumentEntry {
    /// The entry's invariant: the tree is well-formed and every node's byte
    /// span lies inside the stored text, so any node's text can be taken.
    pub open spec fn wf(self) -> bool {
        self.ast.wf() && self.ast.byte_spans_bounded(text_bytes(self.source_code).len())
    }

    /// Builds an entry after checking the tree against the text it claims to
    /// describe; a tree that fails the check is refused rather than stored.
    pub fn new(source_code: String, ast: SyntaxTree) -> (r: Option<DocumentEntry>)
        ensures
            match r {
                Some(e) => {
                    &&& e.wf()
                    &&& e.ast == ast
                    &&& e.source_code == source_code
                },
                None => !(ast.wf() && ast.byte_spans_bounded(text_bytes(source_code).len())),
            },
    {
        let text = source_code.as_str();
        let limit = text.as_bytes().len();
        proof {
            assert(text.spec_bytes() == text_bytes(source_code));
        }
        if crate::treesitter::check_tree(&ast, limit) {
            Some(DocumentEntry { ast, source_code })
        } else {
            None
        }
    }
}

#[verifier::external_type_specification]
#[verifier::external_body]
#[verifier::reject_recursive_types(K)]
#[verifier::reject_recursive_types(V)]
#[verifier::reject_recursive_types(S)]
pub struct ExDashMap<K, V, S>(DashMap<K, V, S>);

/// The concrete shape of the shared map: URI to document entry.
type UriMap = DashMap<String, DocumentEntry>;

/// What the concurrent map holds, as a mathematical map from URI to entry.
pub uninterp spec fn store_contents(m: DashMap<String, DocumentEntry>) -> Map<
    Seq<char>,
    DocumentEntry,
>;

/// The empty store contents.
pub open spec fn empty_contents() -> Map<Seq<char>, DocumentEntry> {
    Map::empty()
}

/// Relies on dashmap::DashMap::new: creates an empty map.
#[verifier::external_body]
fn dashmap_new() -> (res: UriMap)
    ensures
        store_contents(res) == empty_contents(),
{
    DashMap::new()
}

/// Relies on dashmap::DashMap::insert: maps the key to the value, replacing
/// and dropping whatever value the key held before.
#[verifier::external_body]
fn dashmap_upsert(m: &mut UriMap, uri: String, entry: DocumentEntry)
    ensures
        store_contents(*final(m)) == store_contents(*old(m)).insert(uri@, entry),
{
    m.insert(uri, entry);
}

/// Relies on dashmap::DashMap::get: returns the value the key maps to, if
/// any; the read handle is dropped before this returns, so no lock outlives
/// the call.
#[verifier::external_body]
fn dashmap_read(m: &UriMap, uri: &String) -> (r: Option<DocumentEntry>)
    ensures
        match r {
            Some(e) => store_contents(*m).dom().contains(uri@) && e == store_contents(*m)[uri@],
            None => !store_contents(*m).dom().contains(uri@),
        },
{
    match m.get(uri) {
        Some(entry) => Some(entry.value().clone()),
        None => None,
    }
}

/// The store of all open documents.
pub struct DocumentStore {
    map: DashMap<String, DocumentEntry>,
}

impl DocumentStore {
    /// The documents currently held, keyed by URI.
    pub closed spec fn contents(self) -> Map<Seq<char>, DocumentEntry> {
        store_contents(self.map)
    }

    /// Every stored entry satisfies its invariant.
    pub open spec fn wf(self) -> bool {
        forall|u: Seq<char>|
            self.contents().dom().contains(u) ==> (#[trigger] self.contents()[u]).wf()
    }

    pub fn new() -> (s: Self)
        ensures
            s.contents() == Map::<Seq<char>, DocumentEntry>::empty(),
            s.wf(),
    {
        DocumentStore { map: dashmap_new() }
    }

    /// Handles an open notification: checks the freshly parsed tree against
    /// the text and stores the pair under the URI, replacing any previous
    /// entry. Returns whether the pair was accepted.
    pub fn open(&mut self, uri: String, source_code: String, ast: SyntaxTree) -> (ok: bool)
        requires
            old(self).wf(),
        ensures
            final(self).wf(),
            ok == (ast.wf() && ast.byte_spans_bounded(text_bytes(source_code).len())),
            ok ==> final(self).contents() == old(self).contents().insert(
                uri@,
                DocumentEntry { ast, source_code },
            ),
            !ok ==> final(self).contents() == old(self).contents(),
    {
        match DocumentEntry::new(source_code, ast) {
            Some(entry) => {
                dashmap_upsert(&mut self.map, uri, entry);
                proof {
                    let m0 = old(self).contents();
                    let m1 = self.contents();
                    assert(entry == (DocumentEntry { ast, source_code }));
                    assert(m1 == m0.insert(uri@, entry));
                    assert forall|u: Seq<char>| m1.dom().contains(u) implies (#[trigger] m1[u]).wf() by {
                        if u == uri@ {
                            assert(m1[u] == entry);
                        } else {
                            assert(m0.dom().contains(u));
                            assert((m0[u]).wf());
                            assert(m1[u] == m0[u]);
                        }
                    }
                }
                true
            },
            None => false,
        }
    }

    /// Handles a change notification: the stored pair for the URI is replaced
    /// atomically by the re-parsed tree and the new text; a URI not yet held
    /// behaves like an open. The store's contract is the same as `open`'s:
    /// that the grammar engine re-parses incrementally against the previous
    /// tree is the adapter's affair, not the store's.
    pub fn change(&mut self, uri: String, source_code: String, ast: SyntaxTree) -> (ok: bool)
        requires
            old(self).wf(),
        ensures
            final(self).wf(),
            ok == (ast.wf() && ast.byte_spans_bounded(text_bytes(source_code).len())),
            ok ==> final(self).contents() == old(self).contents().insert(
                uri@,
                DocumentEntry { ast, source_code },
            ),
            !ok ==> final(self).contents() == old(self).contents(),
    {
        self.open(uri, source_code, ast)
    }

    /// A snapshot of the current entry for the URI, if one is held.
    pub fn get(&self, uri: &String) -> (r: Option<DocumentEntry>)
        requires
            self.wf(),
        ensures
            match r {
                Some(e) => {
                    &&& self.contents().dom().contains(uri@)
                    &&& e == self.contents()[uri@]
                    &&& e.wf()
                },
                None => !self.contents().dom().contains(uri@),
            },
    {
        dashmap_read(&self.map, uri)
    }
}

/// Round trip: after an open stores one entry and a change replaces it, the
/// store reflects the second entry exclusively; nothing of the first text or
/// its tree remains reachable under the URI.
pub proof fn lemma_store_round_trip(
    m: Map<Seq<char>, DocumentEntry>,
    uri: Seq<char>,
    e1: DocumentEntry,
    e2: DocumentEntry,
)
    ensures
        m.insert(uri, e1).insert(uri, e2).dom().contains(uri),
        m.insert(uri, e1).insert(uri, e2)[uri] == e2,
{
}

} // verus!
