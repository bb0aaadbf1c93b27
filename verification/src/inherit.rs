//! Where inherited documentation comes from.
use crate::tags::DocName;
use vstd::prelude::*;

verus! {

/// A request for a topic.
#[derive(Debug, PartialEq, Eq)]
pub enum TopicRequest {
    /// A topic of the package itself.
    Local { topic: DocName },
    /// A topic of another package.
    External { package: String, topic: DocName },
}

/// Whether a topic exists.
#[derive(Debug, Clone, Copy, PartialEq, Eq, Structural)]
pub enum TopicExistence {
    /// It is known whether the topic exists.
    Known(bool),
    /// Nothing could search for the topic.
    Unavailable,
}

/// Why a topic could not be read.
#[derive(Debug, PartialEq, Eq)]
pub struct DocumentationError {
    pub package: Option<String>,
    pub topic: Option<String>,
    pub detail: String,
}

/// Whether topics of other packages may be inherited from.
#[derive(Debug, Clone, Copy, PartialEq, Eq, Structural)]
pub enum ExternalInheritancePolicy {
    /// Nothing is read from other packages; a request that would need it is
    /// reported.
    Disabled,
    /// What can be read is inherited, and what cannot is reported.
    BestEffort,
}

/// Who chose the policy on other packages.
#[derive(Debug, Clone, Copy, PartialEq, Eq, Structural)]
pub enum ExternalPolicySource {
    /// Nobody: it is the default.
    Default,
    /// The caller.
    Explicit,
}

/// How inheritance treats other packages.
#[derive(Debug, Clone, Copy, PartialEq, Eq, Structural)]
pub struct InheritanceOptions {
    pub external: ExternalInheritancePolicy,
    pub external_source: ExternalPolicySource,
}

/// Without a choice of the caller, other packages are not read.
pub open spec fn default_inheritance() -> InheritanceOptions {
    InheritanceOptions {
        external: ExternalInheritancePolicy::Disabled,
        external_source: ExternalPolicySource::Default,
    }
}

impl Default for InheritanceOptions {
    fn default() -> (r: Self)
        ensures
            r == default_inheritance(),
    {
        InheritanceOptions {
            external: ExternalInheritancePolicy::Disabled,
            external_source: ExternalPolicySource::Default,
        }
    }
}

/// Supplies topics to inherit from.
pub trait DocumentationProvider: Sized {
    /// What the provider knows of a topic.
    type Topic;

    /// Whether a result answers a request. A provider that says nothing more of
    /// itself may answer in any way.
    open spec fn answers(
        &self,
        request: TopicRequest,
        result: Result<Option<Self::Topic>, DocumentationError>,
    ) -> bool {
        true
    }

    /// What is known of the existence of a topic. A provider that says nothing
    /// more of itself knows one fixed thing of each topic.
    open spec fn existence(&self, package: Seq<char>, alias: Seq<char>) -> TopicExistence {
        arbitrary::<spec_fn(Self, Seq<char>, Seq<char>) -> TopicExistence>()(*self, package, alias)
    }

    /// Reads a topic.
    fn get_topic(&self, request: &TopicRequest) -> (r: Result<
        Option<Self::Topic>,
        DocumentationError,
    >)
        ensures
            self.answers(*request, r),
    ;

    /// Whether a topic exists.
    fn topic_exists(&self, package: &str, alias: &str) -> (r: TopicExistence)
        ensures
            r == self.existence(package@, alias@),
    ;
}

/// A provider without topics.
#[derive(Debug, Clone, Copy, PartialEq, Eq)]
pub struct EmptyDocumentationProvider;

impl DocumentationProvider for EmptyDocumentationProvider {
    type Topic = ();

    open spec fn answers(
        &self,
        request: TopicRequest,
        result: Result<Option<()>, DocumentationError>,
    ) -> bool {
        result == Ok::<Option<()>, DocumentationError>(None)
    }

    open spec fn existence(&self, package: Seq<char>, alias: Seq<char>) -> TopicExistence {
        TopicExistence::Unavailable
    }

    fn get_topic(&self, _request: &TopicRequest) -> (r: Result<Option<()>, DocumentationError>) {
        Ok(None)
    }

    fn topic_exists(&self, _package: &str, _alias: &str) -> (r: TopicExistence) {
        TopicExistence::Unavailable
    }
}

/// Whether a provider has no topic for any request and cannot search for any.
pub open spec fn is_silent<D: DocumentationProvider>(provider: D) -> bool {
    &&& forall|request: TopicRequest, result: Result<Option<D::Topic>, DocumentationError>|
        #[trigger] provider.answers(request, result) ==> (result matches Ok(topic) && topic is None)
    &&& forall|package: Seq<char>, alias: Seq<char>| #[trigger]
        provider.existence(package, alias) == TopicExistence::Unavailable
}

/// A provider that reads the package's own topics from one provider, and all
/// others, with their existence, from another.
pub struct ComposedDocumentationProvider<'a, A, B> {
    pub local: &'a A,
    pub external: &'a B,
}

impl<'a, T, A: DocumentationProvider<Topic = T>, B: DocumentationProvider<Topic = T>> DocumentationProvider for ComposedDocumentationProvider<
    'a,
    A,
    B,
> {
    type Topic = T;

    open spec fn answers(
        &self,
        request: TopicRequest,
        result: Result<Option<T>, DocumentationError>,
    ) -> bool {
        match request {
            TopicRequest::Local { .. } => self.local.answers(request, result),
            TopicRequest::External { .. } => self.external.answers(request, result),
        }
    }

    open spec fn existence(&self, package: Seq<char>, alias: Seq<char>) -> TopicExistence {
        self.external.existence(package, alias)
    }

    fn get_topic(&self, request: &TopicRequest) -> (r: Result<Option<T>, DocumentationError>) {
        match request {
            TopicRequest::Local { .. } => self.local.get_topic(request),
            TopicRequest::External { .. } => self.external.get_topic(request),
        }
    }

    fn topic_exists(&self, package: &str, alias: &str) -> (r: TopicExistence) {
        self.external.topic_exists(package, alias)
    }
}

} // verus!
