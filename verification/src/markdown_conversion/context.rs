//! What the caller supplies to a conversion.
use crate::rd::{copy_nodes, node_views, NodeView, RdNode};
use crate::text::{same_text, texts};
use vstd::prelude::*;

verus! {

/// The result of looking up an unqualified help topic.
#[derive(Debug, Clone, PartialEq, Eq)]
pub enum LinkResolution {
    /// The topic belongs to the package itself.
    Local,
    /// Nothing could search for the topic; this is no problem to report.
    Unchecked,
    /// The topic belongs to another package.
    External { package: String },
    /// No package has the topic.
    Unresolved,
    /// Several packages have the topic.
    Ambiguous { packages: Vec<String> },
}

/// The model of [`LinkResolution`].
pub enum ResolutionView {
    Local,
    Unchecked,
    External(Seq<char>),
    Unresolved,
    Ambiguous(Seq<Seq<char>>),
}

impl View for LinkResolution {
    type V = ResolutionView;

    open spec fn view(&self) -> ResolutionView {
        match self {
            LinkResolution::Local => ResolutionView::Local,
            LinkResolution::Unchecked => ResolutionView::Unchecked,
            LinkResolution::External { package } => ResolutionView::External(package@),
            LinkResolution::Unresolved => ResolutionView::Unresolved,
            LinkResolution::Ambiguous { packages } => ResolutionView::Ambiguous(texts(packages@)),
        }
    }
}

/// Resolves unqualified help topics, without tying the conversion to package
/// metadata or to a particular help database.
pub trait HelpLinkResolver: Sized {
    /// How a topic resolves. A resolver that says nothing more of itself
    /// resolves each topic in one fixed way.
    open spec fn resolution(&self, topic: Seq<char>) -> ResolutionView {
        arbitrary::<spec_fn(Self, Seq<char>) -> ResolutionView>()(*self, topic)
    }

    /// Resolves a topic.
    fn resolve_unqualified(&self, topic: &str) -> (r: LinkResolution)
        ensures
            r@ == self.resolution(topic@),
    ;
}

/// A resolver that searches nothing.
#[derive(Debug, Clone, Copy, PartialEq, Eq)]
pub struct UncheckedLinks;

impl HelpLinkResolver for UncheckedLinks {
    open spec fn resolution(&self, topic: Seq<char>) -> ResolutionView {
        ResolutionView::Unchecked
    }

    fn resolve_unqualified(&self, topic: &str) -> (r: LinkResolution) {
        LinkResolution::Unchecked
    }
}

/// The nodes that stand for one exact inline R expression.
#[derive(Debug, PartialEq, Eq)]
pub struct InlineRSubstitution {
    pub expression: String,
    pub nodes: Vec<RdNode>,
    /// Whether the substitution is there without configuration.
    pub built_in: bool,
}

/// The substitutions that a conversion may use.
#[derive(Debug, PartialEq, Eq)]
pub struct InlineRSession {
    pub substitutions: Vec<InlineRSubstitution>,
}

/// The nodes for an expression, from the substitution at `from` on.
pub open spec fn substituted(
    substitutions: Seq<InlineRSubstitution>,
    expression: Seq<char>,
    from: int,
) -> Option<Seq<NodeView>>
    decreases substitutions.len() - from,
{
    if from < 0 || from >= substitutions.len() {
        None
    } else if substitutions[from].expression@ == expression {
        Some(node_views(substitutions[from].nodes))
    } else {
        substituted(substitutions, expression, from + 1)
    }
}

impl InlineRSession {
    /// A session with the given substitutions.
    pub fn new(substitutions: Vec<InlineRSubstitution>) -> (r: Self)
        ensures
            r.substitutions == substitutions,
    {
        InlineRSession { substitutions }
    }

    /// The nodes for an expression.
    pub open spec fn substitution(&self, expression: Seq<char>) -> Option<Seq<NodeView>> {
        substituted(self.substitutions@, expression, 0)
    }

    /// Looks up the nodes for an expression.
    pub fn lookup(&self, expression: &str) -> (r: Option<Vec<RdNode>>)
        ensures
            crate::rd::opt_node_views(r) == self.substitution(expression@),
    {
        let mut i: usize = 0;
        while i < self.substitutions.len()
            invariant
                i <= self.substitutions@.len(),
                substituted(self.substitutions@, expression@, 0) == substituted(
                    self.substitutions@,
                    expression@,
                    i as int,
                ),
            decreases self.substitutions@.len() - i,
        {
            if same_text(&self.substitutions[i].expression, expression) {
                return Some(copy_nodes(&self.substitutions[i].nodes));
            }
            i = i + 1;
        }
        None
    }
}

/// An expression is replaced only where it is configured exactly as it is
/// written; of several entries for it the first counts.
pub proof fn only_configured_expressions_are_replaced(
    session: InlineRSession,
    expression: Seq<char>,
)
    ensures
        session.substitution(expression) is Some <==> exists|i: int|
            0 <= i < session.substitutions@.len() && (
            #[trigger] session.substitutions@[i]).expression@ == expression,
        forall|i: int|
            0 <= i < session.substitutions@.len() && (
            #[trigger] session.substitutions@[i]).expression@ == expression && (forall|k: int|
                0 <= k < i ==> (#[trigger] session.substitutions@[k]).expression@ != expression)
                ==> session.substitution(expression) == Some(
                node_views(session.substitutions@[i].nodes),
            ),
{
    first_entry_counts(session.substitutions@, expression, 0);
}

proof fn first_entry_counts(
    substitutions: Seq<InlineRSubstitution>,
    expression: Seq<char>,
    from: int,
)
    requires
        0 <= from <= substitutions.len(),
    ensures
        substituted(substitutions, expression, from) is Some <==> exists|i: int|
            from <= i < substitutions.len() && (#[trigger] substitutions[i]).expression@
                == expression,
        forall|i: int|
            from <= i < substitutions.len() && (#[trigger] substitutions[i]).expression@
                == expression && (forall|k: int|
                from <= k < i ==> (#[trigger] substitutions[k]).expression@ != expression)
                ==> substituted(substitutions, expression, from) == Some(
                node_views(substitutions[i].nodes),
            ),
    decreases substitutions.len() - from,
{
    if from < substitutions.len() {
        first_entry_counts(substitutions, expression, from + 1);
    }
}

/// Context supplied by the package-level caller.
pub struct MarkdownContext<'a, L: HelpLinkResolver> {
    pub current_package: Option<&'a str>,
    pub links: &'a L,
    pub inline_r_session: Option<&'a InlineRSession>,
}

/// The model of [`MarkdownContext`].
pub struct ContextView {
    pub current_package: Option<Seq<char>>,
    pub links: spec_fn(Seq<char>) -> ResolutionView,
    pub inline_r: Option<spec_fn(Seq<char>) -> Option<Seq<NodeView>>>,
}

impl<'a, L: HelpLinkResolver> View for MarkdownContext<'a, L> {
    type V = ContextView;

    open spec fn view(&self) -> ContextView {
        ContextView {
            current_package: crate::source::opt_str(self.current_package),
            links: |topic: Seq<char>| self.links.resolution(topic),
            inline_r: match self.inline_r_session {
                Some(session) => Some(|expression: Seq<char>| session.substitution(expression)),
                None => None,
            },
        }
    }
}

} // verus!
