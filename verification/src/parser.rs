//! Region classification: which embedded sub-language a syntax node's
//! grammar tag belongs to.

use vstd::prelude::*;

verus! {

/// The embedding region a syntax node belongs to. `Php` marks embedded
/// script text, the only region for which completion is delegated to the
/// external oracle.
#[derive(PartialEq, Eq, Clone, Copy)]
pub enum Location {
    Php,
    Markup,
    Directive,
    Tailwind,
}

/// The classification table as a total function over grammar tags. Any tag
/// that is not recognized maps to `Markup`, the safe default: an unknown tag
/// must never cause the external oracle to be invoked. No tag is ever mapped
/// to `Tailwind` automatically, for the same reason.
pub open spec fn spec_classify(tag: Seq<char>) -> Location {
    if tag == "php_only"@ {
        Location::Php
    } else if tag == "directive"@ {
        Location::Directive
    } else {
        Location::Markup
    }
}

/// Classifies a grammar tag into its embedding region.
pub fn classify(tag: &String) -> (r: Location)
    ensures
        r == spec_classify(tag@),
{
    let php = String::from_str("php_only");
    if *tag == php {
        return Location::Php;
    }
    let directive = String::from_str("directive");
    if *tag == directive {
        return Location::Directive;
    }
    Location::Markup
}

/// A node tagged as embedded script classifies as `Php`, whatever position
/// inside its span prompted the lookup: classification reads the tag alone.
pub proof fn lemma_embedded_script_classifies_as_php(tag: Seq<char>)
    requires
        tag == "php_only"@,
    ensures
        spec_classify(tag) == Location::Php,
{
}

/// Classification depends on the grammar tag alone, never on how the tree
/// that holds the node was produced: two nodes with the same tag always fall
/// in the same region.
pub proof fn lemma_classification_reads_tag_only(tag1: Seq<char>, tag2: Seq<char>)
    requires
        tag1 == tag2,
    ensures
        spec_classify(tag1) == spec_classify(tag2),
{
}

} // verus!
