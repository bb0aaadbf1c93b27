//! NAMESPACE text depends on what is requested, not on the order of requests.
use crate::model::ir::{NamespaceRequest, PackageModel};
use crate::source::SourceMap;
use crate::text::{text_le_antisymmetric, text_lt};
use vstd::prelude::*;

use super::collect::request_outcome;
use super::ir::{directive_text, same_directive, DirectiveView, NamespaceBuildOutput};
use super::pipeline::{
    asks_for, built, collected, deduplication_keeps_one_of_each, distinct_directives,
    import_lines, import_position, import_position_holds, imports_name, is_namespace_text,
    lists_directive, merged_imports, merged_imports_are_unions, names_increase, namespace_lines,
    namespace_text_is_unique, orders, other_lines, ended_lines, namespace_header,
    warned_objects, ImportView,
};
use super::render::{quoted, quoted_injective};
use super::s3::{facts_of, S3Facts, S3GenericProvider};

verus! {

/// Whether an entry of a list has a key.
pub open spec fn has_key<A, K>(list: Seq<A>, key: spec_fn(A) -> K, wanted: K) -> bool {
    exists|i: int| 0 <= i < list.len() && key(#[trigger] list[i]) == wanted
}

/// Whether the entries of a list differ in their keys.
pub open spec fn keys_differ<A, K>(list: Seq<A>, key: spec_fn(A) -> K) -> bool {
    forall|i: int, j: int|
        0 <= i < j < list.len() ==> key(#[trigger] list[i]) != key(#[trigger] list[j])
}

/// Whether every entry of a list has its like in another.
pub open spec fn has_likes<A, K>(list: Seq<A>, other: Seq<A>, key: spec_fn(A) -> K) -> bool {
    forall|i: int| 0 <= i < list.len() ==> has_key(other, key, key(#[trigger] list[i]))
}

/// A list without one of its entries has all keys but that entry's.
proof fn one_key_less<A, K>(list: Seq<A>, key: spec_fn(A) -> K, at: int)
    requires
        keys_differ(list, key),
        0 <= at < list.len(),
    ensures
        keys_differ(list.remove(at), key),
        forall|wanted: K| #[trigger]
            has_key(list.remove(at), key, wanted) <==> has_key(list, key, wanted) && wanted != key(
                list[at],
            ),
        forall|i: int|
            0 <= i < list.len() - 1 ==> #[trigger] list.remove(at)[i] == list[if i < at {
                i
            } else {
                i + 1
            }],
{
    let rest = list.remove(at);
    assert forall|i: int, j: int| 0 <= i < j < rest.len() implies key(#[trigger] rest[i]) != key(
        #[trigger] rest[j],
    ) by {
        let p = if i < at {
            i
        } else {
            i + 1
        };
        let q = if j < at {
            j
        } else {
            j + 1
        };
        assert(key(list[p]) != key(list[q]));
    }
    assert forall|wanted: K| #[trigger] has_key(rest, key, wanted) <==> has_key(list, key, wanted)
        && wanted != key(list[at]) by {
        if has_key(rest, key, wanted) {
            let i = choose|i: int| 0 <= i < rest.len() && key(#[trigger] rest[i]) == wanted;
            let p = if i < at {
                i
            } else {
                i + 1
            };
            assert(key(list[p]) == wanted);
            if p < at {
                assert(key(list[p]) != key(list[at]));
            } else {
                assert(key(list[at]) != key(list[p]));
            }
        }
        if has_key(list, key, wanted) && wanted != key(list[at]) {
            let p = choose|p: int| 0 <= p < list.len() && key(#[trigger] list[p]) == wanted;
            let i = if p < at {
                p
            } else {
                p - 1
            };
            assert(key(rest[i]) == wanted);
        }
    }
}

/// A list without one of its entries still has its likes in another one
/// without the like of that entry.
proof fn likes_remain<A, K>(
    list: Seq<A>,
    other: Seq<A>,
    key: spec_fn(A) -> K,
    at: int,
    beside: int,
)
    requires
        keys_differ(list, key),
        keys_differ(other, key),
        has_likes(list, other, key),
        0 <= at < list.len(),
        0 <= beside < other.len(),
        key(list[at]) == key(other[beside]),
    ensures
        has_likes(list.remove(at), other.remove(beside), key),
{
    one_key_less(list, key, at);
    one_key_less(other, key, beside);
    let rest = list.remove(at);
    assert forall|i: int| 0 <= i < rest.len() implies has_key(
        other.remove(beside),
        key,
        key(#[trigger] rest[i]),
    ) by {
        assert(has_key(rest, key, key(rest[i])));
        let p = if i < at {
            i
        } else {
            i + 1
        };
        assert(has_key(other, key, key(list[p])));
    }
}

/// Two lists without repeats of a key, whose entries agree key by key, give the
/// same texts, each as often.
proof fn keyed_texts_agree<A, K>(
    a: Seq<A>,
    b: Seq<A>,
    key: spec_fn(A) -> K,
    text: spec_fn(A) -> Seq<char>,
)
    requires
        keys_differ(a, key),
        keys_differ(b, key),
        has_likes(a, b, key),
        has_likes(b, a, key),
        forall|i: int, j: int|
            0 <= i < a.len() && 0 <= j < b.len() && key(#[trigger] a[i]) == key(#[trigger] b[j])
                ==> text(a[i]) == text(b[j]),
    ensures
        a.map_values(text).to_multiset() == b.map_values(text).to_multiset(),
    decreases a.len(),
{
    if a.len() == 0 {
        if b.len() > 0 {
            assert(has_key(a, key, key(b[0])));
        }
        assert(a.map_values(text) =~= b.map_values(text));
    } else {
        assert(has_key(b, key, key(a[0])));
        let at = choose|j: int| 0 <= j < b.len() && key(#[trigger] b[j]) == key(a[0]);
        let front = a.remove(0);
        let rest = b.remove(at);
        one_key_less(a, key, 0);
        one_key_less(b, key, at);
        likes_remain(a, b, key, 0, at);
        likes_remain(b, a, key, at, 0);
        assert forall|i: int, j: int|
            0 <= i < front.len() && 0 <= j < rest.len() && key(#[trigger] front[i]) == key(
                #[trigger] rest[j],
            ) implies text(front[i]) == text(rest[j]) by {
            assert(front[i] == a[i + 1]);
        }
        keyed_texts_agree(front, rest, key, text);
        one_text_more(a, text, 0);
        one_text_more(b, text, at);
    }
}

/// The texts of a list are those of the list without an entry, and that entry's.
proof fn one_text_more<A>(list: Seq<A>, text: spec_fn(A) -> Seq<char>, at: int)
    requires
        0 <= at < list.len(),
    ensures
        list.map_values(text).to_multiset() == list.remove(at).map_values(
            text,
        ).to_multiset().insert(text(list[at])),
{
    let all = list.map_values(text);
    assert(all.remove(at) =~= list.remove(at).map_values(text));
    vstd::seq_lib::to_multiset_remove(all, at);
    vstd::seq_lib::to_multiset_contains(all, all[at]);
    assert(all.contains(all[at]));
    assert(all.to_multiset() =~= all.to_multiset().remove(all[at]).insert(all[at]));
}

/// What tells the lines of directives apart.
pub open spec fn directive_key(directive: DirectiveView) -> (Seq<char>, Option<DirectiveView>) {
    if directive is S3Method {
        (directive_text(directive), None)
    } else {
        (Seq::empty(), Some(directive))
    }
}

/// Kept directives are among those given.
proof fn kept_are_given(directives: Seq<DirectiveView>)
    ensures
        forall|i: int|
            0 <= i < distinct_directives(directives).len() ==> directives.contains(
                #[trigger] distinct_directives(directives)[i],
            ),
    decreases directives.len(),
{
    if directives.len() > 0 {
        let front = directives.drop_last();
        kept_are_given(front);
        let kept = distinct_directives(directives);
        assert forall|i: int| 0 <= i < kept.len() implies directives.contains(
            #[trigger] kept[i],
        ) by {
            let before = distinct_directives(front);
            if i < before.len() {
                assert(front.contains(before[i]));
                let k = choose|k: int| 0 <= k < front.len() && front[k] == before[i];
                assert(directives[k] == kept[i]);
            } else {
                assert(directives[directives.len() - 1] == kept[i]);
            }
        }
    }
}

/// All directives but `importFrom`.
pub open spec fn others(directives: Seq<DirectiveView>) -> Seq<DirectiveView>
    decreases directives.len(),
{
    if directives.len() == 0 {
        Seq::empty()
    } else {
        let before = others(directives.drop_last());
        match directives.last() {
            DirectiveView::ImportFrom { .. } => before,
            other => before.push(other),
        }
    }
}

proof fn others_are_the_rest(directives: Seq<DirectiveView>)
    requires
        forall|i: int, j: int|
            0 <= i < j < directives.len() ==> directive_key(#[trigger] directives[i])
                != directive_key(#[trigger] directives[j]),
    ensures
        other_lines(directives) == others(directives).map_values(
            |directive: DirectiveView| directive_text(directive),
        ),
        forall|i: int|
            0 <= i < others(directives).len() ==> directives.contains(
                #[trigger] others(directives)[i],
            ) && !(others(directives)[i] is ImportFrom),
        forall|i: int|
            0 <= i < directives.len() && !((#[trigger] directives[i]) is ImportFrom) ==> others(
                directives,
            ).contains(directives[i]),
        forall|i: int, j: int|
            0 <= i < j < others(directives).len() ==> directive_key(
                #[trigger] others(directives)[i],
            ) != directive_key(#[trigger] others(directives)[j]),
    decreases directives.len(),
{
    let text = |directive: DirectiveView| directive_text(directive);
    let all = others(directives);
    if directives.len() == 0 {
        assert(other_lines(directives) =~= all.map_values(text));
    } else {
        let front = directives.drop_last();
        let last = directives.last();
        assert forall|i: int, j: int| 0 <= i < j < front.len() implies directive_key(
            #[trigger] front[i],
        ) != directive_key(#[trigger] front[j]) by {
            assert(directive_key(directives[i]) != directive_key(directives[j]));
        }
        others_are_the_rest(front);
        let before = others(front);
        assert(other_lines(directives) =~= all.map_values(text));
        assert forall|i: int| 0 <= i < all.len() implies directives.contains(#[trigger] all[i])
            && !(all[i] is ImportFrom) by {
            if i < before.len() {
                assert(front.contains(before[i]));
                let k = choose|k: int| 0 <= k < front.len() && front[k] == before[i];
                assert(directives[k] == all[i]);
            } else {
                assert(directives[directives.len() - 1] == all[i]);
            }
        }
        assert forall|i: int|
            0 <= i < directives.len() && !((#[trigger] directives[i])
                is ImportFrom) implies all.contains(directives[i]) by {
            if i < front.len() {
                assert(front[i] == directives[i]);
                assert(before.contains(front[i]));
                let k = choose|k: int| 0 <= k < before.len() && before[k] == front[i];
                assert(all[k] == directives[i]);
            } else {
                assert(all[all.len() - 1] == directives[i]);
            }
        }
        assert forall|i: int, j: int| 0 <= i < j < all.len() implies directive_key(
            #[trigger] all[i],
        ) != directive_key(#[trigger] all[j]) by {
            if j < before.len() {
                assert(directive_key(before[i]) != directive_key(before[j]));
            } else {
                assert(front.contains(before[i]));
                let k = choose|k: int| 0 <= k < front.len() && front[k] == before[i];
                assert(directive_key(directives[k]) != directive_key(
                    directives[directives.len() - 1],
                ));
            }
        }
    }
}

/// The same directives, each at least once in both lists.
pub open spec fn same_directives(a: Seq<DirectiveView>, b: Seq<DirectiveView>) -> bool {
    forall|directive: DirectiveView| #[trigger] a.contains(directive) <==> b.contains(directive)
}

/// Kept directives differ in their keys.
proof fn kept_keys_differ(directives: Seq<DirectiveView>)
    ensures
        forall|i: int, j: int|
            0 <= i < j < distinct_directives(directives).len() ==> directive_key(
                #[trigger] distinct_directives(directives)[i],
            ) != directive_key(#[trigger] distinct_directives(directives)[j]),
{
    deduplication_keeps_one_of_each(directives);
    let kept = distinct_directives(directives);
    assert forall|i: int, j: int| 0 <= i < j < kept.len() implies directive_key(
        #[trigger] kept[i],
    ) != directive_key(#[trigger] kept[j]) by {
        assert(!same_directive(kept[i], kept[j]));
    }
}

/// A directive of one list has its like among those kept of the other.
proof fn has_its_like(a: Seq<DirectiveView>, b: Seq<DirectiveView>, i: int)
    requires
        same_directives(a, b),
        0 <= i < others(distinct_directives(a)).len(),
    ensures
        exists|j: int|
            0 <= j < others(distinct_directives(b)).len() && directive_key(
                others(distinct_directives(a))[i],
            ) == directive_key(#[trigger] others(distinct_directives(b))[j]),
{
    let kept_a = distinct_directives(a);
    let kept_b = distinct_directives(b);
    kept_keys_differ(a);
    kept_keys_differ(b);
    others_are_the_rest(kept_a);
    others_are_the_rest(kept_b);
    kept_are_given(a);
    deduplication_keeps_one_of_each(b);
    let directive = others(kept_a)[i];
    assert(kept_a.contains(directive));
    let p = choose|p: int| 0 <= p < kept_a.len() && kept_a[p] == directive;
    assert(a.contains(kept_a[p]));
    assert(b.contains(directive));
    let q = choose|q: int| 0 <= q < b.len() && b[q] == directive;
    assert(lists_directive(kept_b, b[q]));
    let k = choose|k: int| 0 <= k < kept_b.len() && same_directive(#[trigger] kept_b[k], b[q]);
    assert(!(kept_b[k] is ImportFrom));
    assert(others(kept_b).contains(kept_b[k]));
    let j = choose|j: int| 0 <= j < others(kept_b).len() && others(kept_b)[j] == kept_b[k];
    assert(directive_key(directive) == directive_key(others(kept_b)[j]));
}

proof fn other_lines_agree(a: Seq<DirectiveView>, b: Seq<DirectiveView>)
    requires
        same_directives(a, b),
    ensures
        other_lines(distinct_directives(a)).to_multiset() == other_lines(
            distinct_directives(b),
        ).to_multiset(),
{
    kept_keys_differ(a);
    kept_keys_differ(b);
    others_are_the_rest(distinct_directives(a));
    others_are_the_rest(distinct_directives(b));
    let x = others(distinct_directives(a));
    let y = others(distinct_directives(b));
    let key = |directive: DirectiveView| directive_key(directive);
    let text = |directive: DirectiveView| directive_text(directive);
    assert(keys_differ(x, key) && keys_differ(y, key));
    assert forall|i: int| 0 <= i < x.len() implies has_key(y, key, key(#[trigger] x[i])) by {
        has_its_like(a, b, i);
        let j = choose|j: int|
            0 <= j < y.len() && directive_key(x[i]) == directive_key(#[trigger] y[j]);
        assert(key(y[j]) == key(x[i]));
    }
    assert forall|j: int| 0 <= j < y.len() implies has_key(x, key, key(#[trigger] y[j])) by {
        has_its_like(b, a, j);
        let i = choose|i: int|
            0 <= i < x.len() && directive_key(y[j]) == directive_key(#[trigger] x[i]);
        assert(key(x[i]) == key(y[j]));
    }
    keyed_texts_agree(x, y, key, text);
}

/// What is asked for survives the removal of repeats.
proof fn kept_ask_for_the_same(
    directives: Seq<DirectiveView>,
    package: Seq<char>,
    name: Seq<char>,
)
    ensures
        asks_for(distinct_directives(directives), package, name) <==> asks_for(
            directives,
            package,
            name,
        ),
{
    let kept = distinct_directives(directives);
    kept_are_given(directives);
    deduplication_keeps_one_of_each(directives);
    if asks_for(kept, package, name) {
        let i = choose|i: int|
            0 <= i < kept.len() && imports_name(#[trigger] kept[i], package, name);
        assert(directives.contains(kept[i]));
        let k = choose|k: int| 0 <= k < directives.len() && directives[k] == kept[i];
        assert(imports_name(directives[k], package, name));
    }
    if asks_for(directives, package, name) {
        let i = choose|i: int|
            0 <= i < directives.len() && imports_name(#[trigger] directives[i], package, name);
        assert(lists_directive(kept, directives[i]));
        let k = choose|k: int|
            0 <= k < kept.len() && same_directive(#[trigger] kept[k], directives[i]);
        assert(kept[k] == directives[i]);
        assert(imports_name(kept[k], package, name));
    }
}

/// The same directives ask for the same names.
proof fn same_directives_ask_for_the_same(
    a: Seq<DirectiveView>,
    b: Seq<DirectiveView>,
    package: Seq<char>,
    name: Seq<char>,
)
    requires
        same_directives(a, b),
        asks_for(a, package, name),
    ensures
        asks_for(b, package, name),
{
    let i = choose|i: int| 0 <= i < a.len() && imports_name(#[trigger] a[i], package, name);
    assert(a.contains(a[i]));
    assert(b.contains(a[i]));
    let k = choose|k: int| 0 <= k < b.len() && b[k] == a[i];
    assert(imports_name(b[k], package, name));
}

/// Whether an `importFrom` of a list is for a package.
pub open spec fn imports_package(directives: Seq<DirectiveView>, package: Seq<char>) -> bool {
    exists|i: int|
        0 <= i < directives.len() && ((#[trigger] directives[i]) matches
            DirectiveView::ImportFrom { package: from, .. } && from == package)
}

/// Every entry of merged imports is for a package that an `importFrom` names.
proof fn merged_packages_are_named(directives: Seq<DirectiveView>)
    ensures
        forall|i: int|
            0 <= i < merged_imports(directives).len() ==> imports_package(
                directives,
                (#[trigger] merged_imports(directives)[i]).package,
            ),
    decreases directives.len(),
{
    if directives.len() > 0 {
        let front = directives.drop_last();
        let last = directives.last();
        merged_packages_are_named(front);
        let before = merged_imports(front);
        let after = merged_imports(directives);
        assert forall|i: int| 0 <= i < after.len() implies imports_package(
            directives,
            (#[trigger] after[i]).package,
        ) by {
            match last {
                DirectiveView::ImportFrom { package, .. } => {
                    import_position_holds(before, package);
                    if after[i].package == package {
                        assert(directives[directives.len() - 1] == last);
                    } else {
                        assert(after[i] == before[i]);
                        named_in_front(directives, before[i].package);
                    }
                },
                _ => {
                    assert(after[i] == before[i]);
                    named_in_front(directives, before[i].package);
                },
            }
        }
    }
}

proof fn named_in_front(directives: Seq<DirectiveView>, package: Seq<char>)
    requires
        directives.len() > 0,
        imports_package(directives.drop_last(), package),
    ensures
        imports_package(directives, package),
{
    let front = directives.drop_last();
    let k = choose|k: int|
        0 <= k < front.len() && ((#[trigger] front[k]) matches DirectiveView::ImportFrom {
            package: from,
            ..
        } && from == package);
    assert(directives[k] == front[k]);
}

/// Two ascending lists of the same names are equal.
proof fn increasing_names_are_unique(a: Seq<Seq<char>>, b: Seq<Seq<char>>)
    requires
        names_increase(a),
        names_increase(b),
        forall|name: Seq<char>| #[trigger] a.contains(name) <==> b.contains(name),
    ensures
        a == b,
    decreases a.len(),
{
    if a.len() == 0 {
        if b.len() > 0 {
            assert(b.contains(b[0]));
            assert(a.contains(b[0]));
        }
        assert(a =~= b);
    } else {
        assert(a.contains(a[0]));
        assert(b.contains(a[0]));
        let x = a.last();
        let y = b.last();
        assert(a.contains(a[a.len() - 1]));
        assert(b.contains(b[b.len() - 1]));
        assert(b.contains(x) && a.contains(y));
        let i = choose|i: int| 0 <= i < b.len() && b[i] == x;
        let j = choose|j: int| 0 <= j < a.len() && a[j] == y;
        if i < b.len() - 1 {
            assert(text_lt(quoted(b[i]), quoted(b[b.len() - 1])));
            if j < a.len() - 1 {
                assert(text_lt(quoted(a[j]), quoted(a[a.len() - 1])));
                text_le_antisymmetric(quoted(x), quoted(y));
                quoted_injective(x, y);
            }
        }
        assert(x == y);
        let front = a.drop_last();
        let rest = b.drop_last();
        front_of_names(a);
        front_of_names(b);
        assert forall|name: Seq<char>| #[trigger] front.contains(name) <==> rest.contains(
            name,
        ) by {
            assert(a.contains(name) <==> b.contains(name));
        }
        increasing_names_are_unique(front, rest);
        assert(a =~= front.push(x));
        assert(b =~= rest.push(y));
    }
}

/// The front of an ascending list has all its names but the last.
proof fn front_of_names(names: Seq<Seq<char>>)
    requires
        names_increase(names),
        names.len() > 0,
    ensures
        names_increase(names.drop_last()),
        forall|name: Seq<char>| #[trigger]
            names.drop_last().contains(name) <==> names.contains(name) && name != names.last(),
{
    let front = names.drop_last();
    assert forall|i: int, j: int| 0 <= i < j < front.len() implies text_lt(
        quoted(#[trigger] front[i]),
        quoted(#[trigger] front[j]),
    ) by {
        assert(text_lt(quoted(names[i]), quoted(names[j])));
    }
    assert forall|name: Seq<char>| #[trigger] front.contains(name) <==> names.contains(name)
        && name != names.last() by {
        if front.contains(name) {
            let k = choose|k: int| 0 <= k < front.len() && front[k] == name;
            assert(names[k] == name);
            assert(text_lt(quoted(names[k]), quoted(names[names.len() - 1])));
        }
        if names.contains(name) && name != names.last() {
            let k = choose|k: int| 0 <= k < names.len() && names[k] == name;
            assert(front[k] == name);
        }
    }
}

/// An entry of one list of merged imports has its like, with the same names, in
/// that of the same directives in another order.
proof fn import_has_its_like(a: Seq<DirectiveView>, b: Seq<DirectiveView>, i: int)
    requires
        same_directives(a, b),
        0 <= i < merged_imports(distinct_directives(a)).len(),
    ensures
        merged_imports(distinct_directives(b)).contains(
            merged_imports(distinct_directives(a))[i],
        ),
{
    let kept_a = distinct_directives(a);
    let kept_b = distinct_directives(b);
    let entry = merged_imports(kept_a)[i];
    let others = merged_imports(kept_b);
    merged_packages_are_named(kept_a);
    merged_imports_are_unions(kept_a);
    merged_imports_are_unions(kept_b);
    kept_are_given(a);
    deduplication_keeps_one_of_each(b);
    let p = choose|p: int|
        0 <= p < kept_a.len() && ((#[trigger] kept_a[p]) matches DirectiveView::ImportFrom {
            package: from,
            ..
        } && from == entry.package);
    assert(a.contains(kept_a[p]));
    assert(b.contains(kept_a[p]));
    let q = choose|q: int| 0 <= q < b.len() && b[q] == kept_a[p];
    assert(lists_directive(kept_b, b[q]));
    let k = choose|k: int| 0 <= k < kept_b.len() && same_directive(#[trigger] kept_b[k], b[q]);
    assert(kept_b[k] == kept_a[p]);
    assert(import_position(others, entry.package) is Some);
    import_position_holds(others, entry.package);
    let at = import_position(others, entry.package)->0;
    assert forall|name: Seq<char>| #[trigger] entry.names.contains(name)
        <==> others[at].names.contains(name) by {
        assert(merged_imports(kept_a)[i].names.contains(name) <==> asks_for(
            kept_a,
            entry.package,
            name,
        ));
        assert(others[at].names.contains(name) <==> asks_for(kept_b, entry.package, name));
        kept_ask_for_the_same(a, entry.package, name);
        kept_ask_for_the_same(b, entry.package, name);
        if asks_for(a, entry.package, name) {
            same_directives_ask_for_the_same(a, b, entry.package, name);
        }
        if asks_for(b, entry.package, name) {
            same_directives_ask_for_the_same(b, a, entry.package, name);
        }
    }
    increasing_names_are_unique(entry.names, others[at].names);
    assert(others[at] == entry);
}

proof fn import_lines_agree(a: Seq<DirectiveView>, b: Seq<DirectiveView>)
    requires
        same_directives(a, b),
    ensures
        import_lines(merged_imports(distinct_directives(a))).to_multiset() == import_lines(
            merged_imports(distinct_directives(b)),
        ).to_multiset(),
{
    let x = merged_imports(distinct_directives(a));
    let y = merged_imports(distinct_directives(b));
    merged_imports_are_unions(distinct_directives(a));
    merged_imports_are_unions(distinct_directives(b));
    let key = |entry: ImportView| entry.package;
    let text = |entry: ImportView|
        directive_text(
            DirectiveView::ImportFrom { package: entry.package, names: entry.names },
        );
    assert(keys_differ(x, key));
    assert(keys_differ(y, key));
    assert forall|i: int| 0 <= i < x.len() implies has_key(y, key, key(#[trigger] x[i])) by {
        import_has_its_like(a, b, i);
        let j = choose|j: int| 0 <= j < y.len() && y[j] == x[i];
        assert(key(y[j]) == key(x[i]));
    }
    assert forall|j: int| 0 <= j < y.len() implies has_key(x, key, key(#[trigger] y[j])) by {
        import_has_its_like(b, a, j);
        let i = choose|i: int| 0 <= i < x.len() && x[i] == y[j];
        assert(key(x[i]) == key(y[j]));
    }
    assert forall|i: int, j: int|
        0 <= i < x.len() && 0 <= j < y.len() && key(#[trigger] x[i]) == key(
            #[trigger] y[j],
        ) implies text(x[i]) == text(y[j]) by {
        import_has_its_like(a, b, i);
        let k = choose|k: int| 0 <= k < y.len() && y[k] == x[i];
        if k < j {
            assert(key(y[k]) != key(y[j]));
        } else if j < k {
            assert(key(y[j]) != key(y[k]));
        }
    }
    keyed_texts_agree(x, y, key, text);
    assert(import_lines(x) =~= x.map_values(text));
    assert(import_lines(y) =~= y.map_values(text));
}

/// The same directives give the same lines, each as often.
proof fn same_directives_give_the_same_lines(a: Seq<DirectiveView>, b: Seq<DirectiveView>)
    requires
        same_directives(a, b),
    ensures
        namespace_lines(a).to_multiset() == namespace_lines(b).to_multiset(),
{
    other_lines_agree(a, b);
    import_lines_agree(a, b);
    vstd::seq_lib::lemma_multiset_commutative(
        other_lines(distinct_directives(a)),
        import_lines(merged_imports(distinct_directives(a))),
    );
    vstd::seq_lib::lemma_multiset_commutative(
        other_lines(distinct_directives(b)),
        import_lines(merged_imports(distinct_directives(b))),
    );
}

/// A collected directive comes from a request, whatever was reported before it.
proof fn directives_come_from_requests(
    requests: Seq<NamespaceRequest>,
    current_package: Option<Seq<char>>,
    facts: S3Facts,
    count: int,
    directive: DirectiveView,
)
    requires
        0 <= count <= requests.len(),
    ensures
        collected(requests, current_package, facts, count).directives.contains(directive)
            <==> exists|i: int|
            0 <= i < count && request_outcome(
                #[trigger] requests[i],
                current_package,
                facts,
                Seq::empty(),
            ).directives.contains(directive),
    decreases count,
{
    let none = Seq::<Seq<char>>::empty();
    if count > 0 {
        directives_come_from_requests(requests, current_package, facts, count - 1, directive);
        let before = collected(requests, current_package, facts, count - 1).directives;
        let request = requests[count - 1];
        let warned = warned_objects(requests, facts, count - 1);
        let more = request_outcome(request, current_package, facts, warned).directives;
        assert(more == request_outcome(request, current_package, facts, none).directives);
        let all = before + more;
        if all.contains(directive) {
            let k = choose|k: int| 0 <= k < all.len() && all[k] == directive;
            if k < before.len() {
                assert(before[k] == directive);
            } else {
                assert(more[k - before.len()] == directive);
            }
        }
        if before.contains(directive) {
            let k = choose|k: int| 0 <= k < before.len() && before[k] == directive;
            assert(all[k] == directive);
        }
        if more.contains(directive) {
            let k = choose|k: int| 0 <= k < more.len() && more[k] == directive;
            assert(all[before.len() + k] == directive);
        }
    }
}

/// The same requests, each at least once in both lists.
pub open spec fn same_requests(a: Seq<NamespaceRequest>, b: Seq<NamespaceRequest>) -> bool {
    forall|request: NamespaceRequest| #[trigger] a.contains(request) <==> b.contains(request)
}

proof fn directives_of_same_requests(
    a: Seq<NamespaceRequest>,
    b: Seq<NamespaceRequest>,
    current_package: Option<Seq<char>>,
    facts: S3Facts,
    directive: DirectiveView,
)
    requires
        same_requests(a, b),
        collected(a, current_package, facts, a.len() as int).directives.contains(directive),
    ensures
        collected(b, current_package, facts, b.len() as int).directives.contains(directive),
{
    directives_come_from_requests(a, current_package, facts, a.len() as int, directive);
    directives_come_from_requests(b, current_package, facts, b.len() as int, directive);
    let i = choose|i: int|
        0 <= i < a.len() && request_outcome(
            #[trigger] a[i],
            current_package,
            facts,
            Seq::empty(),
        ).directives.contains(directive);
    assert(a.contains(a[i]));
    assert(b.contains(a[i]));
    let k = choose|k: int| 0 <= k < b.len() && b[k] == a[i];
    assert(request_outcome(b[k], current_package, facts, Seq::empty()).directives.contains(
        directive,
    ));
}

/// NAMESPACE text depends on the set of requests alone: two packages that differ
/// only in the order of their requests, or in how often some are repeated, give
/// the same text from the same sources, current package and provider.
pub proof fn request_order_does_not_matter<P: S3GenericProvider>(
    a: PackageModel,
    b: PackageModel,
    x: NamespaceBuildOutput,
    y: NamespaceBuildOutput,
    sources: Option<SourceMap>,
    current_package: Option<Seq<char>>,
    provider: P,
)
    requires
        same_requests(a.namespace@, b.namespace@),
        a.bindings@ == b.bindings@,
        a.collate == b.collate,
        built(x, a, current_package, facts_of(a.bindings@, sources, a.collate, provider)),
        built(y, b, current_package, facts_of(b.bindings@, sources, b.collate, provider)),
    ensures
        x.content@ == y.content@,
{
    let facts = facts_of(a.bindings@, sources, a.collate, provider);
    same_requests_give_one_text(a, b, x, y, current_package, facts);
}

proof fn same_requests_give_one_text(
    a: PackageModel,
    b: PackageModel,
    x: NamespaceBuildOutput,
    y: NamespaceBuildOutput,
    current_package: Option<Seq<char>>,
    facts: S3Facts,
)
    requires
        same_requests(a.namespace@, b.namespace@),
        built(x, a, current_package, facts),
        built(y, b, current_package, facts),
    ensures
        x.content@ == y.content@,
{
    let p = collected(
        a.namespace@,
        current_package,
        facts,
        a.namespace@.len() as int,
    ).directives;
    let q = collected(
        b.namespace@,
        current_package,
        facts,
        b.namespace@.len() as int,
    ).directives;
    assert forall|directive: DirectiveView| #[trigger] p.contains(directive) <==> q.contains(
        directive,
    ) by {
        if p.contains(directive) {
            directives_of_same_requests(
                a.namespace@,
                b.namespace@,
                current_package,
                facts,
                directive,
            );
        }
        if q.contains(directive) {
            directives_of_same_requests(
                b.namespace@,
                a.namespace@,
                current_package,
                facts,
                directive,
            );
        }
    }
    same_directives_give_the_same_lines(p, q);
    let ordered = choose|ordered: Seq<Seq<char>>|
        #[trigger] orders(ordered, namespace_lines(p)) && x.content@ == namespace_header()
            + ended_lines(ordered);
    assert(orders(ordered, namespace_lines(q)));
    assert(is_namespace_text(x.content@, namespace_lines(q)));
    namespace_text_is_unique(x.content@, y.content@, namespace_lines(q));
}

} // verus!
