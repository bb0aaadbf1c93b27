//! Lowering of Markdown lists.
use crate::rd::RdMacro;
use crate::source::Span;
use vstd::prelude::*;

use super::origin::{
    copy_spans, make_tagged, make_text, one_node, origin_views, push_nodes, tagged, text_leaf,
    NodeWithOrigin, OriginView,
};

verus! {

/// The Rd list with the given items. Its body starts on the line behind the
/// opening brace.
pub open spec fn lowered_list(tag: RdMacro, children: Seq<OriginView>, spans: Seq<Span>) -> OriginView {
    tagged(tag, seq![text_leaf(seq!['\n'], spans)] + children, spans)
}

/// Lowers a list.
pub fn lower_list(tag: RdMacro, children: Vec<NodeWithOrigin>, spans: Vec<Span>) -> (r:
    NodeWithOrigin)
    ensures
        r@ == lowered_list(tag, origin_views(children), spans@),
{
    let mut text: String = String::new();
    text.push('\n');
    proof {
        assert(text@ =~= seq!['\n']);
    }
    let mut body = one_node(make_text(text, copy_spans(&spans)));
    push_nodes(&mut body, children);
    make_tagged(tag, body, spans)
}

} // verus!
