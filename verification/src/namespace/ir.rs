//! Validated NAMESPACE directives and their rendering.
use crate::diagnostic::Diagnostics;
use crate::text::{
    at_most, contains_char, text3, text5, text_le, text_le_reflexive, text_le_total,
    text_le_transitive,
};
use vstd::prelude::*;
use vstd::seq_lib::to_multiset_build;

use super::render::{quote_name, quoted};

verus! {

/// Text that a NAMESPACE directive can carry: not empty and without NUL.
pub open spec fn usable_text(value: Seq<char>) -> bool {
    value.len() > 0 && !value.contains('\0')
}

/// Whether a NAMESPACE directive can carry `value`.
pub fn is_usable_text(value: &str) -> (r: bool)
    ensures
        r == usable_text(value@),
{
    !value.is_empty() && !contains_char(value, '\0')
}

/// The package name in an `import` or `importFrom` directive.
#[derive(Debug, PartialEq, Eq, Hash, PartialOrd, Ord)]
pub struct NamespacePackageName(pub String);

impl View for NamespacePackageName {
    type V = Seq<char>;

    open spec fn view(&self) -> Seq<char> {
        self.0@
    }
}

impl NamespacePackageName {
    /// A package name, unless the text is empty or holds NUL.
    pub fn new(value: String) -> (r: Option<Self>)
        ensures
            r is Some == usable_text(value@),
            r matches Some(name) ==> name@ == value@,
    {
        if is_usable_text(value.as_str()) {
            Some(NamespacePackageName(value))
        } else {
            None
        }
    }

    /// Returns the decoded package name.
    pub fn as_str(&self) -> (r: &str)
        ensures
            r@ == self@,
    {
        self.0.as_str()
    }
}

/// Opaque text for an `import()` escape-hatch directive containing a comma.
#[derive(Debug, PartialEq, Eq, Hash, PartialOrd, Ord)]
pub struct NamespaceVerbatim(pub String);

impl View for NamespaceVerbatim {
    type V = Seq<char>;

    open spec fn view(&self) -> Seq<char> {
        self.0@
    }
}

impl NamespaceVerbatim {
    /// Directive text, unless it is empty or holds NUL.
    pub fn new(value: String) -> (r: Option<Self>)
        ensures
            r is Some == usable_text(value@),
            r matches Some(text) ==> text@ == value@,
    {
        if is_usable_text(value.as_str()) {
            Some(NamespaceVerbatim(value))
        } else {
            None
        }
    }

    /// Returns the directive text without quoting or decoding it.
    pub fn as_str(&self) -> (r: &str)
        ensures
            r@ == self@,
    {
        self.0.as_str()
    }
}

/// An object name in an `export` or `importFrom` directive.
#[derive(Debug, PartialEq, Eq, Hash, PartialOrd, Ord)]
pub struct NamespaceObjectName(pub String);

impl View for NamespaceObjectName {
    type V = Seq<char>;

    open spec fn view(&self) -> Seq<char> {
        self.0@
    }
}

impl NamespaceObjectName {
    /// An object name, unless the text is empty or holds NUL.
    pub fn new(value: String) -> (r: Option<Self>)
        ensures
            r is Some == usable_text(value@),
            r matches Some(name) ==> name@ == value@,
    {
        if is_usable_text(value.as_str()) {
            Some(NamespaceObjectName(value))
        } else {
            None
        }
    }

    /// Returns the decoded object name.
    pub fn as_str(&self) -> (r: &str)
        ensures
            r@ == self@,
    {
        self.0.as_str()
    }
}

/// The texts of object names.
pub open spec fn object_texts(names: Seq<NamespaceObjectName>) -> Seq<Seq<char>> {
    names.map_values(|n: NamespaceObjectName| n@)
}

/// In the order of their quoted spellings.
pub open spec fn spelled_in_order(names: Seq<Seq<char>>) -> bool {
    forall|i: int, j: int|
        0 <= i <= j < names.len() ==> text_le(
            quoted(#[trigger] names[i]),
            quoted(#[trigger] names[j]),
        )
}

/// A name put behind those of a list that are spelled no later.
pub open spec fn with_placed_name(names: Seq<Seq<char>>, name: Seq<char>) -> Seq<Seq<char>>
    decreases names.len(),
{
    if names.len() == 0 {
        seq![name]
    } else if text_le(quoted(names.last()), quoted(name)) {
        names.push(name)
    } else {
        with_placed_name(names.drop_last(), name).push(names.last())
    }
}

/// The same names in the order of their quoted spellings.
pub open spec fn in_spelling_order(names: Seq<Seq<char>>) -> Seq<Seq<char>>
    decreases names.len(),
{
    if names.len() == 0 {
        names
    } else {
        with_placed_name(in_spelling_order(names.drop_last()), names.last())
    }
}

/// A placed name is one more name, and leaves a list in order.
proof fn placed_names_stay_in_order(names: Seq<Seq<char>>, name: Seq<char>)
    requires
        spelled_in_order(names),
    ensures
        spelled_in_order(with_placed_name(names, name)),
        with_placed_name(names, name).to_multiset() == names.to_multiset().insert(name),
        with_placed_name(names, name).len() == names.len() + 1,
    decreases names.len(),
{
    let placed = with_placed_name(names, name);
    text_le_reflexive(quoted(name));
    if names.len() == 0 {
        assert(placed =~= names.push(name));
        to_multiset_build(names, name);
    } else if text_le(quoted(names.last()), quoted(name)) {
        to_multiset_build(names, name);
        assert forall|i: int, j: int| 0 <= i <= j < placed.len() implies text_le(
            quoted(#[trigger] placed[i]),
            quoted(#[trigger] placed[j]),
        ) by {
            if i < names.len() {
                assert(text_le(quoted(names[i]), quoted(names[names.len() - 1])));
                text_le_transitive(quoted(names[i]), quoted(names.last()), quoted(name));
            }
        }
    } else {
        let front = names.drop_last();
        let last = names.last();
        assert forall|i: int, j: int| 0 <= i <= j < front.len() implies text_le(
            quoted(#[trigger] front[i]),
            quoted(#[trigger] front[j]),
        ) by {
            assert(front[i] == names[i] && front[j] == names[j]);
        }
        placed_names_stay_in_order(front, name);
        let shorter = with_placed_name(front, name);
        text_le_total(quoted(name), quoted(last));
        text_le_reflexive(quoted(last));
        assert forall|i: int| 0 <= i < shorter.len() implies text_le(
            quoted(#[trigger] shorter[i]),
            quoted(last),
        ) by {
            shorter.to_multiset_ensures();
            assert(shorter.contains(shorter[i]));
            assert(shorter.to_multiset().contains(shorter[i]));
            if shorter[i] != name {
                assert(front.to_multiset().contains(shorter[i]));
                front.to_multiset_ensures();
                assert(front.contains(shorter[i]));
                let k = choose|k: int| 0 <= k < front.len() && front[k] == shorter[i];
                assert(names[k] == shorter[i]);
                assert(text_le(quoted(names[k]), quoted(names[names.len() - 1])));
            }
        }
        assert forall|i: int, j: int| 0 <= i <= j < placed.len() implies text_le(
            quoted(#[trigger] placed[i]),
            quoted(#[trigger] placed[j]),
        ) by {
            if j < shorter.len() {
                assert(placed[i] == shorter[i] && placed[j] == shorter[j]);
            } else if i < shorter.len() {
                assert(placed[i] == shorter[i]);
            }
        }
        to_multiset_build(shorter, last);
        to_multiset_build(front, last);
        assert(front.push(last) =~= names);
        assert(placed.to_multiset() =~= names.to_multiset().insert(name));
    }
}

/// Putting names in order keeps each as often as it is given, and orders them by
/// their quoted spellings.
pub proof fn spelling_order_keeps_names(names: Seq<Seq<char>>)
    ensures
        spelled_in_order(in_spelling_order(names)),
        in_spelling_order(names).to_multiset() == names.to_multiset(),
        in_spelling_order(names).len() == names.len(),
    decreases names.len(),
{
    if names.len() > 0 {
        let front = names.drop_last();
        spelling_order_keeps_names(front);
        placed_names_stay_in_order(in_spelling_order(front), names.last());
        to_multiset_build(front, names.last());
        assert(front.push(names.last()) =~= names);
    }
}

/// Puts a name behind those of a list that are spelled no later.
fn place_name(names: &mut Vec<NamespaceObjectName>, name: NamespaceObjectName)
    ensures
        object_texts(final(names)@) == with_placed_name(object_texts(old(names)@), name@),
{
    let ghost shown = object_texts(names@);
    let spelled = quote_name(name.as_str());
    let mut k: usize = names.len();
    proof {
        assert(shown.take(shown.len() as int) =~= shown);
        assert(with_placed_name(shown, name@) + shown.skip(shown.len() as int)
            =~= with_placed_name(shown, name@));
    }
    loop
        invariant_except_break
            k <= names@.len(),
            shown == object_texts(names@),
            names@ == old(names)@,
            spelled@ == quoted(name@),
            with_placed_name(shown, name@) == with_placed_name(shown.take(k as int), name@)
                + shown.skip(k as int),
        ensures
            k <= names@.len(),
            shown == object_texts(names@),
            names@ == old(names)@,
            with_placed_name(shown, name@) == with_placed_name(shown.take(k as int), name@)
                + shown.skip(k as int),
            k > 0 ==> text_le(quoted(shown[k - 1]), quoted(name@)),
        decreases k,
    {
        if k == 0 {
            break;
        }
        let here = quote_name(names[k - 1].as_str());
        if at_most(here.as_str(), spelled.as_str()) {
            break;
        }
        proof {
            let prefix = shown.take(k as int);
            assert(prefix.drop_last() =~= shown.take(k - 1));
            assert(prefix.last() == shown[k - 1]);
            assert(with_placed_name(prefix.drop_last(), name@).push(shown[k - 1]) + shown.skip(
                k as int,
            ) =~= with_placed_name(shown.take(k - 1), name@) + shown.skip(k - 1));
        }
        k = k - 1;
    }
    let ghost one = name@;
    names.insert(k, name);
    proof {
        assert(object_texts(names@) =~= shown.insert(k as int, one));
        assert(shown.take(k as int).push(one) + shown.skip(k as int) =~= shown.insert(
            k as int,
            one,
        ));
        if k == 0 {
            assert(shown.take(0).push(one) =~= seq![one]);
        } else {
            assert(shown.take(k as int).last() == shown[k - 1]);
        }
    }
}

/// A non-empty set of object names used by `importFrom`, ordered by quoted
/// spelling.
#[derive(Debug, PartialEq, Eq)]
pub struct NonEmptyNamespaceNames(Vec<NamespaceObjectName>);

impl View for NonEmptyNamespaceNames {
    type V = Seq<Seq<char>>;

    closed spec fn view(&self) -> Seq<Seq<char>> {
        object_texts(self.0@)
    }
}

impl NonEmptyNamespaceNames {
    /// There is a name, and the names are in the order of their quoted spellings.
    #[verifier::type_invariant]
    spec fn is_ordered_list(self) -> bool {
        self.0@.len() > 0 && spelled_in_order(object_texts(self.0@))
    }

    /// The names in the order of their quoted spellings, unless there are none.
    pub fn new(names: Vec<NamespaceObjectName>) -> (r: Option<Self>)
        ensures
            r is Some == (names@.len() > 0),
            r matches Some(list) ==> {
                &&& list@ == in_spelling_order(object_texts(names@))
                &&& spelled_in_order(list@)
                &&& list@.to_multiset() == object_texts(names@).to_multiset()
            },
    {
        if names.len() == 0 {
            return None;
        }
        let ghost shown = object_texts(names@);
        let mut ordered: Vec<NamespaceObjectName> = Vec::new();
        proof {
            assert(object_texts(ordered@) =~= in_spelling_order(shown.take(0)));
        }
        for name in it: names
            invariant
                object_texts(it.seq()) == shown,
                object_texts(ordered@) == in_spelling_order(shown.take(it.index() as int)),
        {
            proof {
                let prefix = shown.take(it.index() + 1);
                assert(prefix.drop_last() =~= shown.take(it.index() as int));
                assert(prefix.last() == name@);
            }
            place_name(&mut ordered, name);
        }
        proof {
            assert(shown.take(shown.len() as int) =~= shown);
            spelling_order_keeps_names(shown);
            assert(object_texts(ordered@).len() == ordered@.len());
        }
        Some(NonEmptyNamespaceNames(ordered))
    }

    /// Returns the names in deterministic quoted-spelling order.
    pub fn as_slice(&self) -> (r: &[NamespaceObjectName])
        ensures
            object_texts(r@) == self@,
            spelled_in_order(object_texts(r@)),
            r@.len() > 0,
    {
        proof {
            use_type_invariant(self);
        }
        self.0.as_slice()
    }

    /// Gives the names up, in the same order.
    pub fn into_names(self) -> (r: Vec<NamespaceObjectName>)
        ensures
            object_texts(r@) == self@,
            spelled_in_order(object_texts(r@)),
            r@.len() > 0,
    {
        proof {
            use_type_invariant(&self);
        }
        self.0
    }
}

/// The model of [`NamespaceS3MethodArgument`].
pub enum ArgumentView {
    AutoQuoted(Seq<char>),
    Literal(Seq<char>),
}

/// An argument of an S3 method directive, retaining its quoting route.
#[derive(Debug, PartialEq, Eq, PartialOrd, Ord)]
pub enum NamespaceS3MethodArgument {
    /// A name that must be rendered through the normal automatic quoting rule.
    AutoQuoted(String),
    /// An expression supplied literally by an explicit namespace tag.
    Literal(String),
}

impl View for NamespaceS3MethodArgument {
    type V = ArgumentView;

    open spec fn view(&self) -> ArgumentView {
        match self {
            NamespaceS3MethodArgument::AutoQuoted(value) => ArgumentView::AutoQuoted(value@),
            NamespaceS3MethodArgument::Literal(value) => ArgumentView::Literal(value@),
        }
    }
}

/// How an S3 method argument is written.
pub open spec fn argument_text(argument: ArgumentView) -> Seq<char> {
    match argument {
        ArgumentView::AutoQuoted(value) => quoted(value),
        ArgumentView::Literal(value) => value,
    }
}

impl NamespaceS3MethodArgument {
    /// A literal argument, unless the text is empty or holds NUL.
    pub fn literal(value: String) -> (r: Option<Self>)
        ensures
            r is Some == usable_text(value@),
            r matches Some(argument) ==> argument@ == ArgumentView::Literal(value@),
    {
        if is_usable_text(value.as_str()) {
            Some(NamespaceS3MethodArgument::Literal(value))
        } else {
            None
        }
    }

    /// How the argument is written.
    pub fn rendered(&self) -> (r: String)
        ensures
            r@ == argument_text(self@),
    {
        match self {
            NamespaceS3MethodArgument::AutoQuoted(value) => quote_name(value.as_str()),
            NamespaceS3MethodArgument::Literal(value) => value.clone(),
        }
    }
}

/// The model of [`NamespaceDirective`].
#[allow(inconsistent_fields)]
pub enum DirectiveView {
    Export { name: Seq<char> },
    Import { package: Seq<char> },
    ImportVerbatim { value: Seq<char> },
    UseDynLib { value: Seq<char> },
    RawNamespace { value: Seq<char> },
    ExportPattern { pattern: Seq<char> },
    ExportClass { name: Seq<char> },
    ExportMethod { name: Seq<char> },
    ImportClassesFrom { package: Seq<char>, name: Seq<char> },
    ImportMethodsFrom { package: Seq<char>, name: Seq<char> },
    ImportFrom { package: Seq<char>, names: Seq<Seq<char>> },
    S3Method { generic: ArgumentView, class: ArgumentView },
}

/// A validated and normalized MVP namespace directive.
///
/// The `ImportFrom` variant cannot contain an empty name list because it uses
/// [`NonEmptyNamespaceNames`].
#[derive(Debug, PartialEq, Eq)]
pub enum NamespaceDirective {
    /// Export one object.
    Export {
        /// The object to export.
        name: NamespaceObjectName,
    },
    /// Import one whole package.
    Import {
        /// The package to import.
        package: NamespacePackageName,
    },
    /// Import an opaque comma-bearing expression verbatim.
    ImportVerbatim {
        /// The text inside `import(...)`.
        value: NamespaceVerbatim,
    },
    /// Import a package's native library, optionally selecting routines.
    UseDynLib {
        /// The rendered arguments inside `useDynLib(...)`.
        value: NamespaceVerbatim,
    },
    /// Preserve a raw NAMESPACE directive without reformatting it.
    RawNamespace {
        /// The source text of the directive.
        value: NamespaceVerbatim,
    },
    /// Export objects matching a pattern.
    ExportPattern {
        /// The pattern argument.
        pattern: NamespaceObjectName,
    },
    /// Export one S4 class.
    ExportClass {
        /// The class name.
        name: NamespaceObjectName,
    },
    /// Export one S4 method.
    ExportMethod {
        /// The method name.
        name: NamespaceObjectName,
    },
    /// Import one S4 class from a package.
    ImportClassesFrom {
        /// The source package.
        package: NamespacePackageName,
        /// The imported class.
        name: NamespaceObjectName,
    },
    /// Import one S4 method from a package.
    ImportMethodsFrom {
        /// The source package.
        package: NamespacePackageName,
        /// The imported method.
        name: NamespaceObjectName,
    },
    /// Import one or more named objects from a package.
    ImportFrom {
        /// The source package.
        package: NamespacePackageName,
        /// The non-empty imported object set.
        names: NonEmptyNamespaceNames,
    },
    /// Register one S3 method.
    S3Method {
        /// The generic function expression.
        generic: NamespaceS3MethodArgument,
        /// The S3 class expression.
        class: NamespaceS3MethodArgument,
    },
}

impl View for NamespaceDirective {
    type V = DirectiveView;

    open spec fn view(&self) -> DirectiveView {
        match self {
            NamespaceDirective::Export { name } => DirectiveView::Export { name: name@ },
            NamespaceDirective::Import { package } => DirectiveView::Import { package: package@ },
            NamespaceDirective::ImportVerbatim { value } => DirectiveView::ImportVerbatim {
                value: value@,
            },
            NamespaceDirective::UseDynLib { value } => DirectiveView::UseDynLib { value: value@ },
            NamespaceDirective::RawNamespace { value } => DirectiveView::RawNamespace {
                value: value@,
            },
            NamespaceDirective::ExportPattern { pattern } => DirectiveView::ExportPattern {
                pattern: pattern@,
            },
            NamespaceDirective::ExportClass { name } => DirectiveView::ExportClass { name: name@ },
            NamespaceDirective::ExportMethod { name } => DirectiveView::ExportMethod { name: name@ },
            NamespaceDirective::ImportClassesFrom { package, name } =>
                DirectiveView::ImportClassesFrom { package: package@, name: name@ },
            NamespaceDirective::ImportMethodsFrom { package, name } =>
                DirectiveView::ImportMethodsFrom { package: package@, name: name@ },
            NamespaceDirective::ImportFrom { package, names } => DirectiveView::ImportFrom {
                package: package@,
                names: names@,
            },
            NamespaceDirective::S3Method { generic, class } => DirectiveView::S3Method {
                generic: generic@,
                class: class@,
            },
        }
    }
}

/// Quoted names, each after the first on a line of its own.
pub open spec fn name_lines(names: Seq<Seq<char>>) -> Seq<char>
    decreases names.len(),
{
    if names.len() == 0 {
        Seq::empty()
    } else if names.len() == 1 {
        quoted(names[0])
    } else {
        name_lines(names.drop_last()) + ",\n  "@ + quoted(names.last())
    }
}

/// The text of a directive.
pub open spec fn directive_text(directive: DirectiveView) -> Seq<char> {
    match directive {
        DirectiveView::Export { name } => "export("@ + quoted(name) + ")"@,
        DirectiveView::Import { package } => "import("@ + quoted(package) + ")"@,
        DirectiveView::ImportVerbatim { value } => "import("@ + value + ")"@,
        DirectiveView::UseDynLib { value } => "useDynLib("@ + value + ")"@,
        DirectiveView::RawNamespace { value } => value,
        DirectiveView::ExportPattern { pattern } => "exportPattern("@ + quoted(pattern) + ")"@,
        DirectiveView::ExportClass { name } => "exportClasses("@ + quoted(name) + ")"@,
        DirectiveView::ExportMethod { name } => "exportMethods("@ + quoted(name) + ")"@,
        DirectiveView::ImportClassesFrom { package, name } => "importClassesFrom("@ + quoted(
            package,
        ) + ","@ + quoted(name) + ")"@,
        DirectiveView::ImportMethodsFrom { package, name } => "importMethodsFrom("@ + quoted(
            package,
        ) + ","@ + quoted(name) + ")"@,
        DirectiveView::ImportFrom { package, names } => if names.len() == 1 {
            "importFrom("@ + quoted(package) + ","@ + quoted(names[0]) + ")"@
        } else {
            "importFrom("@ + quoted(package) + ",\n  "@ + name_lines(names) + "\n)"@
        },
        DirectiveView::S3Method { generic, class } => "S3method("@ + argument_text(generic) + ","@
            + argument_text(class) + ")"@,
    }
}

/// Two directives that stand for one line. S3 registrations are compared by
/// their text, because both quoting routes can spell the same argument.
pub open spec fn same_directive(a: DirectiveView, b: DirectiveView) -> bool {
    match (a, b) {
        (DirectiveView::S3Method { .. }, DirectiveView::S3Method { .. }) => directive_text(a)
            == directive_text(b),
        _ => a == b,
    }
}

/// Joins quoted names for a wrapped `importFrom`.
fn join_name_lines(names: &Vec<NamespaceObjectName>) -> (r: String)
    ensures
        r@ == name_lines(object_texts(names@)),
{
    let mut out: String = String::new();
    let mut i: usize = 0;
    let ghost shown = object_texts(names@);
    proof {
        assert(out@ =~= name_lines(shown.take(0)));
    }
    while i < names.len()
        invariant
            i <= names@.len(),
            shown == object_texts(names@),
            out@ == name_lines(shown.take(i as int)),
        decreases names@.len() - i,
    {
        proof {
            let prefix = shown.take(i + 1);
            assert(prefix.drop_last() =~= shown.take(i as int));
            assert(prefix.last() == names@[i as int]@);
        }
        if i > 0 {
            out.push_str(",\n  ");
        }
        let name = quote_name(names[i].as_str());
        out.push_str(name.as_str());
        proof {
            assert(out@ =~= name_lines(shown.take(i + 1)));
        }
        i = i + 1;
    }
    proof {
        assert(shown.take(shown.len() as int) =~= shown);
    }
    out
}

/// The text of an `importFrom` directive.
pub fn render_import_from(
    package: &NamespacePackageName,
    names: &Vec<NamespaceObjectName>,
) -> (r: String)
    ensures
        r@ == directive_text(
            DirectiveView::ImportFrom { package: package@, names: object_texts(names@) },
        ),
{
    let package = quote_name(package.as_str());
    if names.len() == 1 {
        let name = quote_name(names[0].as_str());
        text5("importFrom(", package.as_str(), ",", name.as_str(), ")")
    } else {
        let list = join_name_lines(names);
        text5("importFrom(", package.as_str(), ",\n  ", list.as_str(), "\n)")
    }
}

impl NamespaceDirective {
    /// The text of the directive.
    pub fn render(&self) -> (r: String)
        ensures
            r@ == directive_text(self@),
    {
        match self {
            NamespaceDirective::Export { name } => {
                let name = quote_name(name.as_str());
                text3("export(", name.as_str(), ")")
            },
            NamespaceDirective::Import { package } => {
                let package = quote_name(package.as_str());
                text3("import(", package.as_str(), ")")
            },
            NamespaceDirective::ImportVerbatim { value } => text3("import(", value.as_str(), ")"),
            NamespaceDirective::UseDynLib { value } => text3("useDynLib(", value.as_str(), ")"),
            NamespaceDirective::RawNamespace { value } => value.as_str().to_owned(),
            NamespaceDirective::ExportPattern { pattern } => {
                let pattern = quote_name(pattern.as_str());
                text3("exportPattern(", pattern.as_str(), ")")
            },
            NamespaceDirective::ExportClass { name } => {
                let name = quote_name(name.as_str());
                text3("exportClasses(", name.as_str(), ")")
            },
            NamespaceDirective::ExportMethod { name } => {
                let name = quote_name(name.as_str());
                text3("exportMethods(", name.as_str(), ")")
            },
            NamespaceDirective::ImportClassesFrom { package, name } => {
                let package = quote_name(package.as_str());
                let name = quote_name(name.as_str());
                text5("importClassesFrom(", package.as_str(), ",", name.as_str(), ")")
            },
            NamespaceDirective::ImportMethodsFrom { package, name } => {
                let package = quote_name(package.as_str());
                let name = quote_name(name.as_str());
                text5("importMethodsFrom(", package.as_str(), ",", name.as_str(), ")")
            },
            NamespaceDirective::ImportFrom { package, names } => render_import_from(
                package,
                &names.0,
            ),
            NamespaceDirective::S3Method { generic, class } => {
                let generic = generic.rendered();
                let class = class.rendered();
                text5("S3method(", generic.as_str(), ",", class.as_str(), ")")
            },
        }
    }

    /// Whether two directives stand for one line.
    pub fn same_line(&self, other: &NamespaceDirective) -> (r: bool)
        ensures
            r == same_directive(self@, other@),
    {
        match (self, other) {
            (NamespaceDirective::Export { name: a }, NamespaceDirective::Export { name: b }) => a.0
                == b.0,
            (
                NamespaceDirective::Import { package: a },
                NamespaceDirective::Import { package: b },
            ) => a.0 == b.0,
            (
                NamespaceDirective::ImportVerbatim { value: a },
                NamespaceDirective::ImportVerbatim { value: b },
            ) => a.0 == b.0,
            (
                NamespaceDirective::UseDynLib { value: a },
                NamespaceDirective::UseDynLib { value: b },
            ) => a.0 == b.0,
            (
                NamespaceDirective::RawNamespace { value: a },
                NamespaceDirective::RawNamespace { value: b },
            ) => a.0 == b.0,
            (
                NamespaceDirective::ExportPattern { pattern: a },
                NamespaceDirective::ExportPattern { pattern: b },
            ) => a.0 == b.0,
            (
                NamespaceDirective::ExportClass { name: a },
                NamespaceDirective::ExportClass { name: b },
            ) => a.0 == b.0,
            (
                NamespaceDirective::ExportMethod { name: a },
                NamespaceDirective::ExportMethod { name: b },
            ) => a.0 == b.0,
            (
                NamespaceDirective::ImportClassesFrom { package: p, name: a },
                NamespaceDirective::ImportClassesFrom { package: q, name: b },
            ) => p.0 == q.0 && a.0 == b.0,
            (
                NamespaceDirective::ImportMethodsFrom { package: p, name: a },
                NamespaceDirective::ImportMethodsFrom { package: q, name: b },
            ) => p.0 == q.0 && a.0 == b.0,
            (
                NamespaceDirective::ImportFrom { package: p, names: a },
                NamespaceDirective::ImportFrom { package: q, names: b },
            ) => p.0 == q.0 && same_names(&a.0, &b.0),
            (NamespaceDirective::S3Method { .. }, NamespaceDirective::S3Method { .. }) => {
                let a = self.render();
                let b = other.render();
                a == b
            },
            _ => false,
        }
    }
}

/// Whether two name lists hold the same names in the same order.
fn same_names(a: &Vec<NamespaceObjectName>, b: &Vec<NamespaceObjectName>) -> (r: bool)
    ensures
        r == (object_texts(a@) == object_texts(b@)),
{
    if a.len() != b.len() {
        assert(object_texts(a@).len() != object_texts(b@).len());
        return false;
    }
    let mut i: usize = 0;
    while i < a.len()
        invariant
            i <= a@.len() == b@.len(),
            forall|k: int| 0 <= k < i ==> (#[trigger] a@[k])@ == b@[k]@,
        decreases a@.len() - i,
    {
        if a[i].0 != b[i].0 {
            assert(object_texts(a@)[i as int] != object_texts(b@)[i as int]);
            return false;
        }
        i = i + 1;
    }
    assert(object_texts(a@) =~= object_texts(b@));
    true
}

/// The result of building NAMESPACE text.
#[derive(Debug, PartialEq, Eq)]
pub struct NamespaceBuildOutput {
    /// Complete generated NAMESPACE contents.
    pub content: String,
    /// Validation, unsupported-directive, and rendering diagnostics.
    pub diagnostics: Diagnostics,
}

} // verus!
