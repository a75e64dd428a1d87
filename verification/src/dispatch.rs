//! The completion dispatcher: given a document entry and a cursor position,
//! decide whether the external oracle must be asked, and with what payload;
//! and assemble the candidate list handed back to the editor.

use crate::parser::{classify, spec_classify, Location};
use crate::phpactor::CompletionItem;
use crate::store::{text_bytes, DocumentEntry};
use crate::treesitter::{get_node_from_cursor_position, node_text, resolve_from, Point, SyntaxTree};
use vstd::prelude::*;
use vstd::string::StringSliceAdditionalSpecFns;

verus! {

/// One candidate handed to the editor: a display label and its
/// documentation.
pub struct EditorCandidate {
    pub label: String,
    pub documentation: String,
}

/// What the dispatcher decided for one completion request.
pub enum DispatchDecision {
    /// The cursor sits in embedded script: ask the oracle to complete these
    /// snippet bytes at `offset`. The offset is always the snippet's length:
    /// a known quirk, deliberately kept, that conflates completing at the end
    /// of the snippet with completing at the cursor.
    AskOracle { snippet: Vec<u8>, offset: usize },
    /// No embedded-script context at the cursor: answer with the fallback
    /// candidate list and leave the oracle alone.
    Fallback,
}

/// Decides one completion request against the document's current entry.
///
/// The oracle is asked exactly when the cursor resolves to a node classified
/// as embedded script, and then only with the bytes that node spans — never
/// the whole document. A cursor outside the root's span resolves to no node
/// and always falls back.
pub fn plan_completion(entry: &DocumentEntry, line: u32, character: u32) -> (d: DispatchDecision)
    requires
        entry.wf(),
    ensures
        ({
            let p = Point { row: line, column: character };
            match d {
                DispatchDecision::AskOracle { snippet, offset } => {
                    let id = resolve_from(entry.ast, 0, p);
                    &&& entry.ast.root().spec_contains(p)
                    &&& spec_classify(entry.ast.nodes@[id].kind@) == Location::Php
                    &&& snippet@ == text_bytes(entry.source_code).subrange(
                        entry.ast.nodes@[id].start_byte as int,
                        entry.ast.nodes@[id].end_byte as int,
                    )
                    &&& offset == snippet@.len()
                },
                DispatchDecision::Fallback => {
                    !entry.ast.root().spec_contains(p) || spec_classify(
                        entry.ast.nodes@[resolve_from(entry.ast, 0, p)].kind@,
                    ) != Location::Php
                },
            }
        }),
{
    match get_node_from_cursor_position(&entry.ast, line, character) {
        None => DispatchDecision::Fallback,
        Some(id) => {
            let node = &entry.ast.nodes[id];
            match classify(&node.kind) {
                Location::Php => {
                    let source = entry.source_code.as_str();
                    proof {
                        assert(source.spec_bytes() == text_bytes(entry.source_code));
                        assert(entry.ast.nodes@[id as int].start_byte
                            <= entry.ast.nodes@[id as int].end_byte
                            <= source.spec_bytes().len());
                    }
                    let snippet = node_text(source, node);
                    let offset = snippet.len();
                    DispatchDecision::AskOracle { snippet, offset }
                },
                _ => DispatchDecision::Fallback,
            }
        },
    }
}

/// Every cursor position inside the span of a node tagged as embedded
/// script is classified into the `Php` region: the classification holds
/// wherever in the span the cursor sits, since it reads the tag alone.
pub proof fn lemma_embedded_script_span_classifies_php(tree: SyntaxTree, id: int, p: Point)
    requires
        0 <= id < tree.nodes@.len(),
        tree.nodes@[id].kind@ == "php_only"@,
        tree.nodes@[id].spec_contains(p),
    ensures
        spec_classify(tree.nodes@[id].kind@) == Location::Php,
{
}

/// The single informational candidate answered when no completion context is
/// available: the editor always receives a deterministic, non-empty reply.
pub fn fallback_candidates() -> (r: Vec<EditorCandidate>)
    ensures
        r@.len() == 1,
        r@[0].label@ == "Nothing found"@,
        r@[0].documentation@ == "Nothing found"@,
{
    let mut v: Vec<EditorCandidate> = Vec::new();
    v.push(
        EditorCandidate {
            label: String::from_str("Nothing found"),
            documentation: String::from_str("Nothing found"),
        },
    );
    v
}

/// The editor candidates for a list of oracle suggestions: one per
/// suggestion, in order, each carrying exactly the suggestion's label and
/// documentation. An empty suggestion list yields an empty candidate list.
pub fn candidates_from_suggestions(items: &Vec<CompletionItem>) -> (r: Vec<EditorCandidate>)
    ensures
        r@.len() == items@.len(),
        forall|i: int|
            0 <= i < items@.len() ==> (#[trigger] r@[i]).label == items@[i].label && r@[i].documentation
                == items@[i].documentation,
{
    let mut r: Vec<EditorCandidate> = Vec::new();
    let n = items.len();
    let mut i: usize = 0;
    while i < n
        invariant
            n == items@.len(),
            i <= n,
            r@.len() == i,
            forall|k: int|
                0 <= k < i ==> (#[trigger] r@[k]).label == items@[k].label && r@[k].documentation
                    == items@[k].documentation,
        decreases n - i,
    {
        let item = &items[i];
        r.push(EditorCandidate { label: item.label.clone(), documentation: item.documentation.clone() });
        i = i + 1;
    }
    r
}

} // verus!
