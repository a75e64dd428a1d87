use blade_lsp::dispatch::{fallback_candidates, plan_completion, DispatchDecision};
use blade_lsp::store::{DocumentEntry, DocumentStore};
use blade_lsp::treesitter::{get_node_from_cursor_position, node_text, NodeData, Point, SyntaxTree};

fn node(
    kind: &str,
    bytes: (usize, usize),
    start: (u32, u32),
    end: (u32, u32),
    children: Vec<usize>,
) -> NodeData {
    NodeData {
        kind: kind.to_string(),
        start_byte: bytes.0,
        end_byte: bytes.1,
        start_point: Point { row: start.0, column: start.1 },
        end_point: Point { row: end.0, column: end.1 },
        children,
    }
}

/// The tree the Blade grammar produces for the layout snippet, reduced to
/// the spine that covers the embedded `str_replace()` call.
fn layout_tree(source: &str) -> SyntaxTree {
    let len = source.len();
    let line1_start = source.find('\n').unwrap() + 1;
    let div_start = line1_start;
    let div_end = source.find("</div>").unwrap() + "</div>".len();
    let php_start = source.find("str_replace()").unwrap();
    let php_end = php_start + "str_replace()".len();
    let php_col = (php_start - line1_start) as u32;
    SyntaxTree {
        nodes: vec![
            node("template", (0, len), (0, 0), (5, 15), vec![1]),
            node("element", (0, len), (0, 0), (5, 15), vec![2]),
            node("element", (div_start, div_end), (1, 0), (4, 6), vec![3]),
            node(
                "php_only",
                (php_start, php_end),
                (1, php_col),
                (1, php_col + 13),
                vec![],
            ),
        ],
    }
}

#[test]
fn verify_location_at_cursor_position() {
    let test_statement = r#"<x-app-layout>
<div class="{{ str_replace() }}">
<livewire:chirps.create />
<livewire:chirps.list />
</div>
</x-app-layout>"#;

    let tree = layout_tree(test_statement);
    let cur_node = get_node_from_cursor_position(&tree, 1, 21).unwrap();
    let attr = &tree.nodes[cur_node].kind;
    let name =
        String::from_utf8(node_text(test_statement, &tree.nodes[cur_node])).unwrap();

    assert_eq!(attr, "php_only");
    assert_eq!(name, "str_replace()")
}

/// The tree for a one-line document with a single embedded script span.
fn inline_tree(source: &str) -> SyntaxTree {
    let len = source.len();
    let cols = len as u32;
    let php_start = source.find("str_replace()").unwrap();
    let php_end = php_start + "str_replace()".len();
    SyntaxTree {
        nodes: vec![
            node("template", (0, len), (0, 0), (0, cols), vec![1]),
            node("element", (0, len), (0, 0), (0, cols), vec![2]),
            node(
                "php_only",
                (php_start, php_end),
                (0, php_start as u32),
                (0, php_end as u32),
                vec![],
            ),
        ],
    }
}

#[test]
fn php_region_dispatches_node_text_to_oracle() {
    let source = "<div>{{ str_replace() }}</div>";
    let tree = inline_tree(source);

    let id = get_node_from_cursor_position(&tree, 0, 12).unwrap();
    assert_eq!(tree.nodes[id].kind, "php_only");
    assert_eq!(node_text(source, &tree.nodes[id]), b"str_replace()".to_vec());

    let entry = DocumentEntry::new(source.to_string(), tree).unwrap();
    match plan_completion(&entry, 0, 12) {
        DispatchDecision::AskOracle { snippet, offset } => {
            assert_eq!(snippet, b"str_replace()".to_vec());
            assert_eq!(offset, 13);
        },
        DispatchDecision::Fallback => panic!("embedded script must reach the oracle"),
    }
}

fn markup_only_entry() -> DocumentEntry {
    let source = "<div>hello</div>";
    let len = source.len();
    let tree = SyntaxTree {
        nodes: vec![
            node("template", (0, len), (0, 0), (0, len as u32), vec![1]),
            node("element", (0, len), (0, 0), (0, len as u32), vec![2]),
            node("text", (5, 10), (0, 5), (0, 10), vec![]),
        ],
    };
    DocumentEntry::new(source.to_string(), tree).unwrap()
}

#[test]
fn markup_only_document_falls_back() {
    let entry = markup_only_entry();
    for character in [0u32, 2, 7, 12, 15] {
        match plan_completion(&entry, 0, character) {
            DispatchDecision::Fallback => {},
            DispatchDecision::AskOracle { .. } => {
                panic!("markup must never invoke the oracle")
            },
        }
    }
    let candidates = fallback_candidates();
    assert_eq!(candidates.len(), 1);
    assert_eq!(candidates[0].label, "Nothing found");
    assert_eq!(candidates[0].documentation, "Nothing found");
}

#[test]
fn outside_root_resolves_nothing_and_falls_back() {
    let entry = markup_only_entry();
    assert!(get_node_from_cursor_position(&entry.ast, 4, 0).is_none());
    assert!(get_node_from_cursor_position(&entry.ast, 0, 16).is_none());
    match plan_completion(&entry, 4, 0) {
        DispatchDecision::Fallback => {},
        DispatchDecision::AskOracle { .. } => {
            panic!("a cursor outside the document must never invoke the oracle")
        },
    }
}

fn single_node_tree(source: &str, kind: &str) -> SyntaxTree {
    let len = source.len();
    SyntaxTree { nodes: vec![node(kind, (0, len), (0, 0), (0, len as u32), vec![])] }
}

#[test]
fn identical_sibling_spans_resolve_to_first_match() {
    let source = "{{ a }}";
    let len = source.len();
    let tree = SyntaxTree {
        nodes: vec![
            node("template", (0, len), (0, 0), (0, len as u32), vec![1, 2]),
            node("php_only", (3, 4), (0, 3), (0, 4), vec![]),
            node("text", (3, 4), (0, 3), (0, 4), vec![]),
        ],
    };
    let id = get_node_from_cursor_position(&tree, 0, 3).unwrap();
    assert_eq!(id, 1);
    assert_eq!(tree.nodes[id].kind, "php_only");
}

#[test]
fn store_round_trip_reflects_latest_change() {
    let mut store = DocumentStore::new();
    let uri = "file:///pages/welcome.blade.php".to_string();

    let t1 = "<div>one</div>";
    let t2 = "<div>{{ two }}</div>";
    assert!(store.open(uri.clone(), t1.to_string(), single_node_tree(t1, "template")));
    let first = store.get(&uri).unwrap();
    assert_eq!(first.source_code, t1);

    assert!(store.change(uri.clone(), t2.to_string(), single_node_tree(t2, "template")));
    let second = store.get(&uri).unwrap();
    assert_eq!(second.source_code, t2);
    assert_eq!(second.ast.nodes[0].end_byte, t2.len());
}

#[test]
fn store_change_without_open_behaves_like_open() {
    let mut store = DocumentStore::new();
    let uri = "file:///pages/fresh.blade.php".to_string();
    let text = "<p></p>";
    assert!(store.change(uri.clone(), text.to_string(), single_node_tree(text, "template")));
    assert_eq!(store.get(&uri).unwrap().source_code, text);
}

#[test]
fn store_get_unknown_uri_is_none() {
    let store = DocumentStore::new();
    assert!(store.get(&"file:///absent.blade.php".to_string()).is_none());
}

#[test]
fn entry_refuses_tree_spanning_past_text() {
    let text = "<p></p>";
    let tree = SyntaxTree { nodes: vec![node("template", (0, 999), (0, 0), (0, 7), vec![])] };
    assert!(DocumentEntry::new(text.to_string(), tree).is_none());
}

#[test]
fn entry_refuses_bad_child_ids() {
    let text = "<p></p>";
    let cyclic = SyntaxTree {
        nodes: vec![
            node("template", (0, 7), (0, 0), (0, 7), vec![1]),
            node("element", (0, 7), (0, 0), (0, 7), vec![0]),
        ],
    };
    assert!(DocumentEntry::new(text.to_string(), cyclic).is_none());

    let dangling = SyntaxTree {
        nodes: vec![node("template", (0, 7), (0, 0), (0, 7), vec![5])],
    };
    assert!(DocumentEntry::new(text.to_string(), dangling).is_none());

    let mut store = DocumentStore::new();
    let uri = "file:///bad.blade.php".to_string();
    let bad = SyntaxTree { nodes: vec![node("template", (0, 999), (0, 0), (0, 7), vec![])] };
    assert!(!store.open(uri.clone(), text.to_string(), bad));
    assert!(store.get(&uri).is_none());
}
