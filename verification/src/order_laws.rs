//! The order in which resources and methods come does not matter: documents with the same content
//! offer the same tools, and a call comes to the same request.

use crate::call::{planned, CallView};
use crate::discovery::{
    by_name, descend, distinct_names, find, lemma_find, methods_view, resource_view, resources_view,
    well_formed, MethodView, ResourceView, RestDescription, RestMethod, RestResource,
};
use crate::json::JsonView;
use crate::tools::{
    below, document_tools, law_resources_are_walked_in_order, listing, method_tool, method_tools,
    resource_tools, walk, workflow_tools,
};
use vstd::prelude::*;

verus! {

/// The two documents have one name and the same content, and each names everything once.
pub open spec fn same_content(a: RestDescription, b: RestDescription) -> bool {
    &&& a.name@ == b.name@
    &&& resources_view(a.resources@) == resources_view(b.resources@)
    &&& well_formed(a.resources@)
    &&& well_formed(b.resources@)
}

proof fn lemma_distinct_remove<T>(list: Seq<(String, T)>, k: int)
    requires
        distinct_names(list),
        0 <= k < list.len(),
    ensures
        distinct_names(list.remove(k)),
        forall|i: int|
            0 <= i < list.remove(k).len() ==> (#[trigger] list.remove(k)[i]).0@ != list[k].0@,
{
    let rest = list.remove(k);
    assert forall|i: int, j: int| 0 <= i < j < rest.len() implies (#[trigger] rest[i]).0@ != (
    #[trigger] rest[j]).0@ by {
        let i0 = if i < k { i } else { i + 1 };
        let j0 = if j < k { j } else { j + 1 };
        assert(list[i0].0@ != list[j0].0@);
    }
    assert forall|i: int| 0 <= i < rest.len() implies (#[trigger] rest[i]).0@ != list[k].0@ by {
        let i0 = if i < k { i } else { i + 1 };
        assert(rest[i] == list[i0]);
        if i0 < k {
            assert(list[i0].0@ != list[k].0@);
        } else {
            assert(list[k].0@ != list[i0].0@);
        }
    }
}

proof fn lemma_by_name<T, V>(list: Seq<(String, T)>, content: spec_fn(T) -> V)
    requires
        distinct_names(list),
    ensures
        forall|i: int|
            0 <= i < list.len() ==> by_name(list, content).contains_key((#[trigger] list[i]).0@)
                && by_name(list, content)[list[i].0@] == content(list[i].1),
        forall|name: Seq<char>| #[trigger]
            by_name(list, content).contains_key(name) ==> exists|i: int|
                0 <= i < list.len() && (#[trigger] list[i]).0@ == name,
    decreases list.len(),
{
    if list.len() > 0 {
        let n = list.len() - 1;
        let front = list.drop_last();
        lemma_distinct_remove(list, n);
        assert(list.remove(n) =~= front);
        lemma_by_name(front, content);
        assert forall|i: int| 0 <= i < list.len() implies by_name(list, content).contains_key(
            (#[trigger] list[i]).0@,
        ) && by_name(list, content)[list[i].0@] == content(list[i].1) by {
            if i < n {
                assert(front[i] == list[i]);
            }
        }
        assert forall|name: Seq<char>| #[trigger]
            by_name(list, content).contains_key(name) implies exists|i: int|
            0 <= i < list.len() && (#[trigger] list[i]).0@ == name by {
            if name == list.last().0@ {
                assert(list[n].0@ == name);
            } else {
                assert(by_name(front, content).contains_key(name));
                let i = choose|i: int| 0 <= i < front.len() && (#[trigger] front[i]).0@ == name;
                assert(list[i].0@ == name);
            }
        }
    }
}

proof fn lemma_by_name_remove<T, V>(list: Seq<(String, T)>, content: spec_fn(T) -> V, k: int)
    requires
        distinct_names(list),
        0 <= k < list.len(),
    ensures
        by_name(list.remove(k), content) == by_name(list, content).remove(list[k].0@),
    decreases list.len(),
{
    let n = list.len() - 1;
    let front = list.drop_last();
    let rest = list.remove(k);
    lemma_distinct_remove(list, n);
    assert(list.remove(n) =~= front);
    if k == n {
        lemma_by_name(front, content);
        assert(!by_name(front, content).contains_key(list[n].0@)) by {
            if by_name(front, content).contains_key(list[n].0@) {
                let i = choose|i: int|
                    0 <= i < front.len() && (#[trigger] front[i]).0@ == list[n].0@;
                assert(list.remove(n)[i].0@ != list[n].0@);
            }
        }
    } else {
        lemma_by_name_remove(front, content, k);
        assert(rest.drop_last() =~= front.remove(k));
        assert(rest.last() == list.last());
        assert(list[k].0@ != list[n].0@);
    }
    assert(by_name(rest, content) =~= by_name(list, content).remove(list[k].0@));
}

/// What a method holds.
spec fn of_method() -> spec_fn(RestMethod) -> MethodView {
    |method: RestMethod| method@
}

/// What a resource holds.
spec fn of_resource() -> spec_fn(RestResource) -> ResourceView {
    |res: RestResource| resource_view(res)
}

proof fn lemma_resources_by_name(resources: Seq<(String, RestResource)>)
    ensures
        resources_view(resources) == by_name(resources, of_resource()),
    decreases resources.len(),
{
    if resources.len() > 0 {
        lemma_resources_by_name(resources.drop_last());
    }
}

proof fn lemma_method_tools(
    prefix: Seq<char>,
    a: Seq<(String, RestMethod)>,
    b: Seq<(String, RestMethod)>,
)
    requires
        distinct_names(a),
        distinct_names(b),
        methods_view(a) == methods_view(b),
    ensures
        method_tools(prefix, a).to_multiset() == method_tools(prefix, b).to_multiset(),
    decreases a.len(),
{
    broadcast use vstd::seq_lib::group_to_multiset_ensures;

    lemma_by_name(a, of_method());
    lemma_by_name(b, of_method());
    if a.len() == 0 {
        if b.len() > 0 {
            assert(methods_view(a).contains_key(b[0].0@));
        }
        assert(method_tools(prefix, a) =~= method_tools(prefix, b));
    } else {
        let n = a.len() - 1;
        let x = a[n];
        let front = a.remove(n);
        assert(methods_view(b).contains_key(x.0@));
        let k = choose|k: int| 0 <= k < b.len() && (#[trigger] b[k]).0@ == x.0@;
        let rest = b.remove(k);
        lemma_distinct_remove(a, n);
        lemma_distinct_remove(b, k);
        lemma_by_name_remove(a, of_method(), n);
        lemma_by_name_remove(b, of_method(), k);
        lemma_method_tools(prefix, front, rest);
        let tool = method_tool(prefix, x);
        assert(b[k].1@ == x.1@);
        assert(method_tool(prefix, b[k]) == tool);
        assert(method_tools(prefix, a) =~= method_tools(prefix, front).push(tool));
        assert(method_tools(prefix, b).remove(k) =~= method_tools(prefix, rest));
        assert(method_tools(prefix, b)[k] == tool);
        let whole = method_tools(prefix, b).to_multiset();
        assert(whole.count(tool) > 0) by {
            assert(method_tools(prefix, b).contains(tool));
        }
        assert(whole =~= whole.remove(tool).insert(tool));
    }
}

proof fn lemma_concat_multiset(a: Seq<JsonView>, b: Seq<JsonView>)
    ensures
        (a + b).to_multiset() == a.to_multiset().add(b.to_multiset()),
{
    vstd::seq_lib::lemma_multiset_commutative(a, b);
}

proof fn lemma_walk_remove(prefix: Seq<char>, resources: Seq<(String, RestResource)>, k: int)
    requires
        0 <= k < resources.len(),
    ensures
        walk(prefix, resources).to_multiset() == walk(
            prefix,
            resources.remove(k),
        ).to_multiset().add(
            resource_tools(below(prefix, resources[k].0@), resources[k].1).to_multiset(),
        ),
{
    let left = resources.take(k);
    let right = resources.skip(k + 1);
    let one = seq![resources[k]];
    let tools = resource_tools(below(prefix, resources[k].0@), resources[k].1);
    assert(resources =~= left + one + right);
    assert(resources.remove(k) =~= left + right);
    assert(walk(prefix, one) =~= tools) by {
        assert(one.drop_last() =~= Seq::empty());
        assert(walk(prefix, one.drop_last()) =~= Seq::empty());
    }
    law_resources_are_walked_in_order(prefix, left + one, right, resources[k]);
    law_resources_are_walked_in_order(prefix, left, one, resources[k]);
    law_resources_are_walked_in_order(prefix, left, right, resources[k]);
    lemma_concat_multiset(walk(prefix, left) + tools, walk(prefix, right));
    lemma_concat_multiset(walk(prefix, left), tools);
    lemma_concat_multiset(walk(prefix, left), walk(prefix, right));
    assert(walk(prefix, resources).to_multiset() =~= walk(
        prefix,
        resources.remove(k),
    ).to_multiset().add(tools.to_multiset()));
}

proof fn lemma_well_formed_remove(resources: Seq<(String, RestResource)>, k: int)
    requires
        well_formed(resources),
        0 <= k < resources.len(),
    ensures
        well_formed(resources.remove(k)),
        distinct_names(resources[k].1.methods@),
        well_formed(resources[k].1.resources@),
{
    let rest = resources.remove(k);
    lemma_distinct_remove(resources, k);
    assert forall|i: int| 0 <= i < rest.len() implies {
        let res = (#[trigger] rest[i]).1;
        distinct_names(res.methods@) && well_formed(res.resources@)
    } by {
        let i0 = if i < k { i } else { i + 1 };
        assert(rest[i] == resources[i0]);
    }
}

/// Resources with the same content have the same tools, up to their order, in whatever order the
/// resources and methods come at any depth.
pub proof fn law_order_does_not_matter(
    prefix: Seq<char>,
    a: Seq<(String, RestResource)>,
    b: Seq<(String, RestResource)>,
)
    requires
        well_formed(a),
        well_formed(b),
        resources_view(a) == resources_view(b),
    ensures
        walk(prefix, a).to_multiset() == walk(prefix, b).to_multiset(),
    decreases a,
{
    lemma_resources_by_name(a);
    lemma_resources_by_name(b);
    lemma_by_name(a, of_resource());
    lemma_by_name(b, of_resource());
    if a.len() == 0 {
        if b.len() > 0 {
            assert(resources_view(a).contains_key(b[0].0@));
        }
        assert(a =~= b);
    } else {
        let n = a.len() - 1;
        let x = a[n];
        let front = a.drop_last();
        assert(a.remove(n) =~= front);
        assert(resources_view(b).contains_key(x.0@));
        let k = choose|k: int| 0 <= k < b.len() && (#[trigger] b[k]).0@ == x.0@;
        let y = b[k];
        lemma_well_formed_remove(a, n);
        lemma_well_formed_remove(b, k);
        lemma_by_name_remove(a, of_resource(), n);
        lemma_by_name_remove(b, of_resource(), k);
        lemma_resources_by_name(front);
        lemma_resources_by_name(b.remove(k));
        law_order_does_not_matter(prefix, front, b.remove(k));
        let inner = below(prefix, x.0@);
        assert(resource_view(x.1) == resource_view(y.1));
        lemma_method_tools(inner, x.1.methods@, y.1.methods@);
        assert(decreases_to!(a => x.1.resources@)) by {
            assert(decreases_to!(a => a[n]));
            assert(decreases_to!(x => x.1));
            assert(decreases_to!(x.1 => x.1.resources));
            assert(decreases_to!(x.1.resources => x.1.resources@));
        }
        law_order_does_not_matter(inner, x.1.resources@, y.1.resources@);
        assert(resource_tools(inner, x.1) == method_tools(inner, x.1.methods@) + walk(
            inner,
            x.1.resources@,
        ));
        assert(resource_tools(inner, y.1) == method_tools(inner, y.1.methods@) + walk(
            inner,
            y.1.resources@,
        ));
        lemma_concat_multiset(method_tools(inner, x.1.methods@), walk(inner, x.1.resources@));
        lemma_concat_multiset(method_tools(inner, y.1.methods@), walk(inner, y.1.resources@));
        lemma_walk_remove(prefix, a, n);
        lemma_walk_remove(prefix, b, k);
    }
}

proof fn lemma_document_tools(
    a: Seq<Option<RestDescription>>,
    b: Seq<Option<RestDescription>>,
)
    requires
        a.len() == b.len(),
        forall|i: int|
            0 <= i < a.len() ==> match ((#[trigger] a[i]), b[i]) {
                (Some(x), Some(y)) => same_content(x, y),
                (None, None) => true,
                _ => false,
            },
    ensures
        document_tools(a).to_multiset() == document_tools(b).to_multiset(),
    decreases a.len(),
{
    if a.len() > 0 {
        let n = a.len() - 1;
        lemma_document_tools(a.drop_last(), b.drop_last());
        assert(a[n] == a.last() && b[n] == b.last());
        match (a.last(), b.last()) {
            (Some(x), Some(y)) => {
                law_order_does_not_matter(x.name@, x.resources@, y.resources@);
                lemma_concat_multiset(document_tools(a.drop_last()), walk(x.name@, x.resources@));
                lemma_concat_multiset(document_tools(b.drop_last()), walk(y.name@, y.resources@));
            },
            _ => {
                assert(document_tools(a) =~= document_tools(a.drop_last()));
                assert(document_tools(b) =~= document_tools(b.drop_last()));
            },
        }
    } else {
        assert(a =~= b);
    }
}

/// The whole list of tools is the same, up to its order, where every document has the same
/// content.
pub proof fn law_listing_depends_on_content(
    a: Seq<Option<RestDescription>>,
    b: Seq<Option<RestDescription>>,
    workflows: bool,
)
    requires
        a.len() == b.len(),
        forall|i: int|
            0 <= i < a.len() ==> match ((#[trigger] a[i]), b[i]) {
                (Some(x), Some(y)) => same_content(x, y),
                (None, None) => true,
                _ => false,
            },
    ensures
        listing(a, workflows).to_multiset() == listing(b, workflows).to_multiset(),
{
    lemma_document_tools(a, b);
    let more = if workflows {
        workflow_tools()
    } else {
        Seq::empty()
    };
    lemma_concat_multiset(document_tools(a), more);
    lemma_concat_multiset(document_tools(b), more);
}

proof fn lemma_find_method(methods: Seq<(String, RestMethod)>, name: Seq<char>)
    requires
        distinct_names(methods),
    ensures
        match find(methods, name) {
            Some(m) => methods_view(methods).contains_key(name) && methods_view(methods)[name]
                == m@,
            None => !methods_view(methods).contains_key(name),
        },
{
    lemma_by_name(methods, of_method());
    lemma_find(methods, name);
}

proof fn lemma_find_resource(resources: Seq<(String, RestResource)>, name: Seq<char>)
    requires
        well_formed(resources),
    ensures
        match find(resources, name) {
            Some(res) => {
                &&& resources_view(resources).contains_key(name)
                &&& resources_view(resources)[name] == resource_view(res)
                &&& distinct_names(res.methods@)
                &&& well_formed(res.resources@)
            },
            None => !resources_view(resources).contains_key(name),
        },
{
    lemma_resources_by_name(resources);
    lemma_by_name(resources, of_resource());
    lemma_find(resources, name);
}

proof fn lemma_descend(
    a: Seq<(String, RestResource)>,
    b: Seq<(String, RestResource)>,
    path: Seq<Seq<char>>,
)
    requires
        path.len() > 0,
        well_formed(a),
        well_formed(b),
        resources_view(a) == resources_view(b),
    ensures
        match (descend(a, path), descend(b, path)) {
            (Ok(x), Ok(y)) => {
                &&& distinct_names(x.methods@)
                &&& distinct_names(y.methods@)
                &&& methods_view(x.methods@) == methods_view(y.methods@)
            },
            (Err(x), Err(y)) => x == y,
            _ => false,
        },
    decreases path.len(),
{
    lemma_find_resource(a, path[0]);
    lemma_find_resource(b, path[0]);
    match (find(a, path[0]), find(b, path[0])) {
        (Some(x), Some(y)) => {
            assert(resource_view(x) == resource_view(y));
            if path.len() > 1 {
                lemma_descend(x.resources@, y.resources@, path.skip(1));
            }
        },
        _ => {},
    }
}

/// A call comes to the same request, or is refused for the same reason, with any document of the
/// same content.
pub proof fn law_plan_depends_on_content(call: CallView, a: RestDescription, b: RestDescription)
    requires
        call.path.len() > 0,
        same_content(a, b),
    ensures
        planned(call, a) == planned(call, b),
{
    lemma_descend(a.resources@, b.resources@, call.path);
    match (descend(a.resources@, call.path), descend(b.resources@, call.path)) {
        (Ok(x), Ok(y)) => {
            lemma_find_method(x.methods@, call.method);
            lemma_find_method(y.methods@, call.method);
        },
        _ => {},
    }
}

} // verus!
