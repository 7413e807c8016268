//! The names of tools lead to the methods that they stand for.

use crate::call::{planned, requested_call, text_under, CallView, Verdict};
use crate::discovery::{
    descend, distinct_names, find, lemma_find, well_formed, RestDescription, RestMethod,
    RestResource,
};
use crate::error::ErrorView;
use crate::json::JsonView;
use crate::text::{join, law_join_undoes_split, law_split_undoes_join, split};
use crate::tools::{below, method_tool, method_tools, resource_tools, walk};
use vstd::prelude::*;

verus! {

/// A name without the character that separates names in the name of a tool.
pub open spec fn plain_name(name: Seq<char>) -> bool {
    !name.contains('_')
}

/// No name of a resource or a method, at any depth, holds the separator.
pub open spec fn plain_names(resources: Seq<(String, RestResource)>) -> bool
    decreases resources,
{
    forall|i: int|
        0 <= i < resources.len() ==> {
            let entry = #[trigger] resources[i];
            &&& plain_name(entry.0@)
            &&& forall|j: int|
                0 <= j < entry.1.methods@.len() ==> plain_name(
                    (#[trigger] entry.1.methods@[j]).0@,
                )
            &&& plain_names(entry.1.resources@)
        }
}

/// No piece holds the separator.
pub open spec fn all_plain(pieces: Seq<Seq<char>>) -> bool {
    forall|k: int| 0 <= k < pieces.len() ==> plain_name(#[trigger] pieces[k])
}

/// The name of the tool for a method at the end of a path.
pub open spec fn tool_name(service: Seq<char>, path: Seq<Seq<char>>, method: Seq<char>) -> Seq<
    char,
> {
    join(seq![service] + path.push(method), "_"@)
}

/// The name that a tool goes by.
pub open spec fn name_of(tool: JsonView) -> Option<Seq<char>> {
    text_under(tool, "name"@)
}

/// The method at the end of a path, if it is there.
pub open spec fn method_at(
    resources: Seq<(String, RestResource)>,
    path: Seq<Seq<char>>,
    method: Seq<char>,
) -> Option<RestMethod> {
    if path.len() == 0 {
        None
    } else {
        match descend(resources, path) {
            Ok(res) => find(res.methods@, method),
            Err(_) => None,
        }
    }
}

proof fn lemma_join_push(pieces: Seq<Seq<char>>, piece: Seq<char>)
    requires
        pieces.len() > 0,
    ensures
        join(pieces.push(piece), "_"@) == below(join(pieces, "_"@), piece),
{
    assert(pieces.push(piece).drop_last() =~= pieces);
}

proof fn lemma_find_distinct<T>(list: Seq<(String, T)>, k: int)
    requires
        distinct_names(list),
        0 <= k < list.len(),
    ensures
        find(list, list[k].0@) == Some(list[k].1),
{
    lemma_find(list, list[k].0@);
    let i = choose|i: int|
        0 <= i < list.len() && (#[trigger] list[i]).0@ == list[k].0@ && Some(list[i].1) == find(
            list,
            list[k].0@,
        );
    assert(i == k);
}

proof fn lemma_find_in_longer<T>(list: Seq<(String, T)>, name: Seq<char>)
    requires
        list.len() > 0,
        find(list.drop_last(), name) is Some,
    ensures
        find(list, name) == find(list.drop_last(), name),
    decreases list.len(),
{
    let front = list.drop_last();
    if front.len() > 0 && front[0].0@ != name {
        assert(list.skip(1).drop_last() =~= front.skip(1));
        lemma_find_in_longer(list.skip(1), name);
    }
}

proof fn lemma_well_formed_front(resources: Seq<(String, RestResource)>)
    requires
        resources.len() > 0,
        well_formed(resources),
    ensures
        well_formed(resources.drop_last()),
        distinct_names(resources.last().1.methods@),
        well_formed(resources.last().1.resources@),
        plain_names(resources) ==> {
            &&& plain_names(resources.drop_last())
            &&& plain_names(resources.last().1.resources@)
            &&& plain_name(resources.last().0@)
        },
{
    let front = resources.drop_last();
    assert(forall|i: int| 0 <= i < front.len() ==> front[i] == resources[i]);
    assert(resources[resources.len() - 1] == resources.last());
    assert(distinct_names(front)) by {
        assert forall|i: int, j: int| 0 <= i < j < front.len() implies (#[trigger] front[i]).0@
            != (#[trigger] front[j]).0@ by {
            assert(resources[i].0@ != resources[j].0@);
        }
    }
}

/// Where the `i`th tool below `base` comes from.
proof fn lemma_tool_origin(
    base: Seq<Seq<char>>,
    resources: Seq<(String, RestResource)>,
    i: int,
) -> (origin: (Seq<Seq<char>>, Seq<char>))
    requires
        base.len() > 0,
        well_formed(resources),
        0 <= i < walk(join(base, "_"@), resources).len(),
    ensures
        origin.0.len() > 0,
        method_at(resources, origin.0, origin.1) is Some,
        exists|k: int|
            0 <= k < resources.len() && (#[trigger] resources[k]).0@ == origin.0[0],
        plain_names(resources) ==> all_plain(origin.0.push(origin.1)),
        name_of(walk(join(base, "_"@), resources)[i]) == Some(
            join(base + origin.0.push(origin.1), "_"@),
        ),
    decreases resources,
{
    let prefix = join(base, "_"@);
    let front = resources.drop_last();
    let earlier = walk(prefix, front);
    let entry = resources.last();
    let name = entry.0@;
    let res = entry.1;
    lemma_well_formed_front(resources);
    assert(walk(prefix, resources) == earlier + resource_tools(below(prefix, name), res));
    if i < earlier.len() {
        let origin = lemma_tool_origin(base, front, i);
        lemma_find_in_longer(resources, origin.0[0]);
        assert(descend(resources, origin.0) == descend(front, origin.0));
        let k = choose|k: int| 0 <= k < front.len() && (#[trigger] front[k]).0@ == origin.0[0];
        assert(resources[k].0@ == origin.0[0]);
        origin
    } else {
        let inner = base.push(name);
        lemma_join_push(base, name);
        let own = method_tools(below(prefix, name), res.methods@);
        let k = i - earlier.len();
        assert(resource_tools(below(prefix, name), res) == own + walk(
            below(prefix, name),
            res.resources@,
        ));
        assert(resources[resources.len() - 1] == entry);
        lemma_find_distinct(resources, resources.len() - 1);
        if k < own.len() {
            let method = res.methods@[k].0@;
            lemma_find_distinct(res.methods@, k);
            lemma_join_push(inner, method);
            let path = seq![name];
            assert(base + path.push(method) =~= inner.push(method));
            lemma_tool_name(below(prefix, name), res.methods@[k]);
            assert(plain_names(resources) ==> plain_name(method)) by {
                assert(entry.1.methods@[k].0@ == method);
            }
            (path, method)
        } else {
            assert(decreases_to!(resources => res.resources@)) by {
                assert(decreases_to!(resources => resources[resources.len() - 1]));
                assert(decreases_to!(entry => res));
                assert(decreases_to!(res => res.resources));
                assert(decreases_to!(res.resources => res.resources@));
            }
            let (deeper, method) = lemma_tool_origin(inner, res.resources@, k - own.len());
            let path = seq![name] + deeper;
            assert(path.skip(1) =~= deeper);
            assert(base + path.push(method) =~= inner + deeper.push(method));
            assert(descend(resources, path) == descend(res.resources@, deeper));
            if plain_names(resources) {
                let pieces = path.push(method);
                assert forall|m: int| 0 <= m < pieces.len() implies plain_name(
                    #[trigger] pieces[m],
                ) by {
                    if m > 0 {
                        assert(pieces[m] == deeper.push(method)[m - 1]);
                    }
                }
            }
            (path, method)
        }
    }
}

proof fn lemma_tool_name(prefix: Seq<char>, entry: (String, RestMethod))
    ensures
        name_of(method_tool(prefix, entry)) == Some(below(prefix, entry.0@)),
{
    reveal_strlit("name");
    reveal_strlit("description");
    reveal_strlit("inputSchema");
    assert("name"@.len() == 4 && "description"@.len() == 11 && "inputSchema"@.len() == 11);
}

proof fn lemma_walk_holds(
    prefix: Seq<char>,
    resources: Seq<(String, RestResource)>,
    k: int,
    tool: JsonView,
)
    requires
        0 <= k < resources.len(),
        resource_tools(below(prefix, resources[k].0@), resources[k].1).contains(tool),
    ensures
        walk(prefix, resources).contains(tool),
    decreases resources.len(),
{
    let front = resources.drop_last();
    let earlier = walk(prefix, front);
    let last = resource_tools(below(prefix, resources.last().0@), resources.last().1);
    assert(walk(prefix, resources) == earlier + last);
    if k == resources.len() - 1 {
        let j = choose|j: int| 0 <= j < last.len() && last[j] == tool;
        assert((earlier + last)[earlier.len() + j] == tool);
    } else {
        assert(front[k] == resources[k]);
        lemma_walk_holds(prefix, front, k, tool);
        let j = choose|j: int| 0 <= j < earlier.len() && earlier[j] == tool;
        assert((earlier + last)[j] == tool);
    }
}

proof fn lemma_method_is_listed(
    base: Seq<Seq<char>>,
    resources: Seq<(String, RestResource)>,
    path: Seq<Seq<char>>,
    method: Seq<char>,
) -> (i: int)
    requires
        base.len() > 0,
        method_at(resources, path, method) is Some,
    ensures
        0 <= i < walk(join(base, "_"@), resources).len(),
        name_of(walk(join(base, "_"@), resources)[i]) == Some(
            join(base + path.push(method), "_"@),
        ),
    decreases path.len(),
{
    let prefix = join(base, "_"@);
    lemma_find(resources, path[0]);
    let res = find(resources, path[0])->0;
    let k = choose|k: int|
        0 <= k < resources.len() && (#[trigger] resources[k]).0@ == path[0] && resources[k].1
            == res;
    let inner = base.push(path[0]);
    let inner_prefix = below(prefix, path[0]);
    lemma_join_push(base, path[0]);
    let own = method_tools(inner_prefix, res.methods@);
    let nested = walk(inner_prefix, res.resources@);
    assert(resource_tools(inner_prefix, res) == own + nested);
    let tool = if path.len() == 1 {
        lemma_find(res.methods@, method);
        let j = choose|j: int|
            0 <= j < res.methods@.len() && (#[trigger] res.methods@[j]).0@ == method;
        lemma_tool_name(inner_prefix, res.methods@[j]);
        lemma_join_push(inner, method);
        assert(base + path.push(method) =~= inner.push(method));
        assert((own + nested)[j] == own[j]);
        own[j]
    } else {
        let deeper = path.skip(1);
        let j = lemma_method_is_listed(inner, res.resources@, deeper, method);
        assert(base + path.push(method) =~= inner + deeper.push(method));
        assert((own + nested)[own.len() + j] == nested[j]);
        nested[j]
    };
    lemma_walk_holds(prefix, resources, k, tool);
    choose|i: int|
        0 <= i < walk(prefix, resources).len() && walk(prefix, resources)[i] == tool
}

/// Every method of a document, at any depth, is listed as a tool, under the names on the way to
/// it joined by `_`.
pub proof fn law_every_method_is_listed(
    doc: RestDescription,
    path: Seq<Seq<char>>,
    method: Seq<char>,
)
    requires
        method_at(doc.resources@, path, method) is Some,
    ensures
        exists|i: int|
            0 <= i < walk(doc.name@, doc.resources@).len() && name_of(
                #[trigger] walk(doc.name@, doc.resources@)[i],
            ) == Some(tool_name(doc.name@, path, method)),
{
    let base = seq![doc.name@];
    let i = lemma_method_is_listed(base, doc.resources@, path, method);
    assert(join(base, "_"@) == doc.name@);
    assert(name_of(walk(doc.name@, doc.resources@)[i]) == Some(
        tool_name(doc.name@, path, method),
    ));
}

proof fn lemma_not_a_workflow(service: Seq<char>, rest: Seq<char>)
    requires
        plain_name(service),
        service != "workflow"@,
    ensures
        !"workflow_"@.is_prefix_of(service + "_"@ + rest),
{
    reveal_strlit("workflow_");
    reveal_strlit("workflow");
    reveal_strlit("_");
    let name = service + "_"@ + rest;
    if "workflow_"@.is_prefix_of(name) {
        assert("workflow_"@ =~= name.subrange(0, 9));
        assert(forall|i: int| 0 <= i < 9 ==> "workflow_"@[i] == name[i]);
        if service.len() < 8 {
            assert(name[service.len() as int] == '_');
            assert("workflow_"@[service.len() as int] == '_');
            assert(false);
        } else if service.len() > 8 {
            assert(name[8] == '_');
            assert(service[8] == '_');
            assert(service.contains('_'));
        } else {
            assert(service =~= "workflow"@) by {
                assert(forall|i: int| 0 <= i < 8 ==> service[i] == name[i]);
            }
        }
    }
}

proof fn lemma_join_front(service: Seq<char>, more: Seq<Seq<char>>)
    requires
        more.len() > 0,
    ensures
        join(seq![service] + more, "_"@) == service + "_"@ + join(more, "_"@),
    decreases more.len(),
{
    let whole = seq![service] + more;
    if more.len() == 1 {
        assert(whole.drop_last() =~= seq![service]);
        assert(join(seq![service], "_"@) == service);
    } else {
        lemma_join_front(service, more.drop_last());
        assert(whole.drop_last() =~= seq![service] + more.drop_last());
        assert(join(whole, "_"@) =~= service + "_"@ + join(more, "_"@));
    }
}

/// Every tool of a document stands for one of its methods, under the names on the way to it
/// joined by `_`.
pub proof fn law_every_tool_has_a_method(doc: RestDescription, i: int)
    requires
        well_formed(doc.resources@),
        0 <= i < walk(doc.name@, doc.resources@).len(),
    ensures
        exists|path: Seq<Seq<char>>, method: Seq<char>| #[trigger]
            method_at(doc.resources@, path, method) is Some && name_of(
                walk(doc.name@, doc.resources@)[i],
            ) == Some(tool_name(doc.name@, path, method)),
{
    let base = seq![doc.name@];
    assert(join(base, "_"@) == doc.name@);
    let (path, method) = lemma_tool_origin(base, doc.resources@, i);
    assert(method_at(doc.resources@, path, method) is Some);
}

/// A call by the name of a tool reaches the method that the tool stands for: where no name on
/// the way holds `_`, it is read as a call of that service and that method, and is planned
/// unless its file to upload is refused. (The service `workflow` is out, since its tools would
/// have the names of workflows.)
pub proof fn law_call_by_name_finds_the_method(
    doc: RestDescription,
    path: Seq<Seq<char>>,
    method: Seq<char>,
    services: Seq<Seq<char>>,
    params: JsonView,
    verdict: Verdict,
)
    requires
        method_at(doc.resources@, path, method) is Some,
        forall|k: int| 0 <= k < path.len() ==> plain_name(#[trigger] path[k]),
        plain_name(method),
        plain_name(doc.name@),
        doc.name@ != "workflow"@,
        services.contains(doc.name@),
        text_under(params, "name"@) == Some(tool_name(doc.name@, path, method)),
    ensures
        requested_call(params, services, verdict) matches Ok(call) && call.service == doc.name@
            && call.path == path && call.method == method && (planned(call, doc) is Ok <==> (
        call.upload matches Some(u) ==> u.allowed())),
{
    let pieces = seq![doc.name@] + path.push(method);
    lemma_join_front(doc.name@, path.push(method));
    lemma_not_a_workflow(doc.name@, join(path.push(method), "_"@));
    assert forall|k: int| 0 <= k < pieces.len() implies !(#[trigger] pieces[k]).contains('_') by {
        if k == 0 {
            assert(plain_name(doc.name@));
        } else if k < pieces.len() - 1 {
            assert(plain_name(path[k - 1]));
        } else {
            assert(plain_name(method));
        }
    }
    reveal_strlit("_");
    assert("_"@ =~= seq!['_']);
    law_split_undoes_join(pieces, '_');
    assert(split(tool_name(doc.name@, path, method), '_') == pieces);
    assert(pieces.subrange(1, pieces.len() - 1) =~= path);
}

/// Where two tools below `base` come from: not from one method.
proof fn lemma_two_origins(
    base: Seq<Seq<char>>,
    resources: Seq<(String, RestResource)>,
    i: int,
    j: int,
) -> (origins: (Seq<Seq<char>>, Seq<Seq<char>>))
    requires
        base.len() > 0,
        well_formed(resources),
        plain_names(resources),
        0 <= i < j < walk(join(base, "_"@), resources).len(),
    ensures
        origins.0 != origins.1,
        origins.0.len() > 0,
        origins.1.len() > 0,
        all_plain(origins.0),
        all_plain(origins.1),
        name_of(walk(join(base, "_"@), resources)[i]) == Some(join(base + origins.0, "_"@)),
        name_of(walk(join(base, "_"@), resources)[j]) == Some(join(base + origins.1, "_"@)),
    decreases resources,
{
    let prefix = join(base, "_"@);
    let front = resources.drop_last();
    let earlier = walk(prefix, front);
    let entry = resources.last();
    let name = entry.0@;
    let res = entry.1;
    let inner = base.push(name);
    let inner_prefix = below(prefix, name);
    let own = method_tools(inner_prefix, res.methods@);
    let nested = walk(inner_prefix, res.resources@);
    lemma_well_formed_front(resources);
    lemma_join_push(base, name);
    assert(resource_tools(inner_prefix, res) == own + nested);
    assert(walk(prefix, resources) == earlier + (own + nested));
    assert(resources[resources.len() - 1] == entry);
    if j < earlier.len() {
        lemma_two_origins(base, front, i, j)
    } else if i < earlier.len() {
        let (path, method) = lemma_tool_origin(base, front, i);
        let k = choose|k: int| 0 <= k < front.len() && (#[trigger] front[k]).0@ == path[0];
        assert(resources[k].0@ != resources[resources.len() - 1].0@);
        let other = lemma_last_origin(base, resources, j);
        assert(path.push(method)[0] != other[0]);
        (path.push(method), other)
    } else if j - earlier.len() < own.len() {
        let a = i - earlier.len();
        let b = j - earlier.len();
        let first = lemma_last_origin(base, resources, i);
        let second = lemma_last_origin(base, resources, j);
        assert(res.methods@[a].0@ != res.methods@[b].0@);
        assert(first[1] != second[1]);
        (first, second)
    } else if i - earlier.len() < own.len() {
        let first = lemma_last_origin(base, resources, i);
        let second = lemma_last_origin(base, resources, j);
        (first, second)
    } else {
        assert(decreases_to!(resources => res.resources@)) by {
            assert(decreases_to!(resources => resources[resources.len() - 1]));
            assert(decreases_to!(entry => res));
            assert(decreases_to!(res => res.resources));
            assert(decreases_to!(res.resources => res.resources@));
        }
        let skip = earlier.len() + own.len();
        let (first, second) = lemma_two_origins(inner, res.resources@, i - skip, j - skip);
        let one = seq![name] + first;
        let two = seq![name] + second;
        assert(one.skip(1) =~= first);
        assert(two.skip(1) =~= second);
        assert(base + one =~= inner + first);
        assert(base + two =~= inner + second);
        assert forall|m: int| 0 <= m < one.len() implies plain_name(#[trigger] one[m]) by {
            if m > 0 {
                assert(one[m] == first[m - 1]);
            }
        }
        assert forall|m: int| 0 <= m < two.len() implies plain_name(#[trigger] two[m]) by {
            if m > 0 {
                assert(two[m] == second[m - 1]);
            }
        }
        (one, two)
    }
}

/// Where a tool of the last resource comes from.
proof fn lemma_last_origin(
    base: Seq<Seq<char>>,
    resources: Seq<(String, RestResource)>,
    i: int,
) -> (pieces: Seq<Seq<char>>)
    requires
        base.len() > 0,
        resources.len() > 0,
        well_formed(resources),
        plain_names(resources),
        walk(join(base, "_"@), resources.drop_last()).len() <= i < walk(
            join(base, "_"@),
            resources,
        ).len(),
    ensures
        pieces.len() > 1,
        pieces[0] == resources.last().0@,
        all_plain(pieces),
        name_of(walk(join(base, "_"@), resources)[i]) == Some(join(base + pieces, "_"@)),
        ({
            let methods = resources.last().1.methods@;
            let k = i - walk(join(base, "_"@), resources.drop_last()).len();
            if k < methods.len() {
                pieces.len() == 2 && pieces[1] == methods[k].0@
            } else {
                pieces.len() > 2
            }
        }),
{
    let prefix = join(base, "_"@);
    let earlier = walk(prefix, resources.drop_last());
    let entry = resources.last();
    let name = entry.0@;
    let res = entry.1;
    let inner = base.push(name);
    let inner_prefix = below(prefix, name);
    let own = method_tools(inner_prefix, res.methods@);
    let nested = walk(inner_prefix, res.resources@);
    let k = i - earlier.len();
    lemma_well_formed_front(resources);
    lemma_join_push(base, name);
    assert(resource_tools(inner_prefix, res) == own + nested);
    assert(walk(prefix, resources) == earlier + (own + nested));
    assert(resources[resources.len() - 1] == entry);
    if k < own.len() {
        let method = res.methods@[k].0@;
        lemma_tool_name(inner_prefix, res.methods@[k]);
        lemma_join_push(inner, method);
        assert(base + seq![name, method] =~= inner.push(method));
        assert(plain_name(entry.1.methods@[k].0@));
        seq![name, method]
    } else {
        let (path, method) = lemma_tool_origin(inner, res.resources@, k - own.len());
        let deeper = path.push(method);
        let pieces = seq![name] + deeper;
        assert(base + pieces =~= inner + deeper);
        assert forall|m: int| 0 <= m < pieces.len() implies plain_name(#[trigger] pieces[m]) by {
            if m > 0 {
                assert(pieces[m] == deeper[m - 1]);
            }
        }
        pieces
    }
}

/// No two tools of a document have one name, where no name of a resource or a method in it holds
/// `_`.
pub proof fn law_tool_names_are_distinct(doc: RestDescription, i: int, j: int)
    requires
        well_formed(doc.resources@),
        plain_names(doc.resources@),
        0 <= i < j < walk(doc.name@, doc.resources@).len(),
    ensures
        name_of(walk(doc.name@, doc.resources@)[i]) != name_of(
            walk(doc.name@, doc.resources@)[j],
        ),
{
    let base = seq![doc.name@];
    assert(join(base, "_"@) == doc.name@);
    let (first, second) = lemma_two_origins(base, doc.resources@, i, j);
    reveal_strlit("_");
    assert("_"@ =~= seq!['_']);
    assert(forall|k: int| 0 <= k < first.len() ==> plain_name(#[trigger] first[k]));
    assert(forall|k: int| 0 <= k < second.len() ==> plain_name(#[trigger] second[k]));
    law_split_undoes_join(first, '_');
    law_split_undoes_join(second, '_');
    lemma_join_front(doc.name@, first);
    lemma_join_front(doc.name@, second);
    let head = doc.name@ + "_"@;
    let one = join(first, "_"@);
    let two = join(second, "_"@);
    assert((head + one).skip(head.len() as int) =~= one);
    assert((head + two).skip(head.len() as int) =~= two);
}

proof fn lemma_parts_of_name(pieces: Seq<Seq<char>>)
    requires
        pieces.len() > 0,
        all_plain(pieces),
    ensures
        split(join(pieces, "_"@), '_') == pieces,
{
    reveal_strlit("_");
    assert("_"@ =~= seq!['_']);
    assert forall|k: int| 0 <= k < pieces.len() implies !(#[trigger] pieces[k]).contains('_') by {
        assert(plain_name(pieces[k]));
    }
    law_split_undoes_join(pieces, '_');
}

/// The call of a tool is read out of its name: its service, the resources on the way and its
/// method are the parts of the name between one `_` and the next, and its service is enabled.
pub proof fn law_name_is_taken_apart(
    params: JsonView,
    services: Seq<Seq<char>>,
    verdict: Verdict,
    call: CallView,
)
    requires
        requested_call(params, services, verdict) == Ok::<_, ErrorView>(call),
    ensures
        params.get("name"@) == Some(
            JsonView::Str(join(seq![call.service] + call.path.push(call.method), "_"@)),
        ),
        call.path.len() > 0,
        plain_name(call.service),
        all_plain(call.path),
        plain_name(call.method),
        services.contains(call.service),
        call.service != "workflow"@,
{
    let name = text_under(params, "name"@)->0;
    let parts = split(name, '_');
    law_join_undoes_split(name, '_');
    reveal_strlit("_");
    assert("_"@ =~= seq!['_']);
    assert(seq![call.service] + call.path.push(call.method) =~= parts);
    assert forall|k: int| 0 <= k < call.path.len() implies plain_name(#[trigger] call.path[k]) by {
        assert(call.path[k] == parts[k + 1]);
    }
    assert(plain_name(parts[0]));
    assert(plain_name(parts[parts.len() - 1]));
    if call.service == "workflow"@ {
        reveal_strlit("workflow_");
        reveal_strlit("workflow");
        lemma_join_front(call.service, call.path.push(call.method));
        assert("workflow_"@ =~= name.subrange(0, 9));
        assert("workflow_"@.is_prefix_of(name));
    }
}

/// A call by a name of at least three parts is accepted where its service, the first, is enabled,
/// and is refused otherwise, by the name of the service. (Parts hold no `_`, and the first is not
/// that of workflows.)
pub proof fn law_enabled_services_can_be_called(
    service: Seq<char>,
    path: Seq<Seq<char>>,
    method: Seq<char>,
    services: Seq<Seq<char>>,
    params: JsonView,
    verdict: Verdict,
)
    requires
        path.len() > 0,
        plain_name(service),
        all_plain(path),
        plain_name(method),
        service != "workflow"@,
        params.get("name"@) == Some(
            JsonView::Str(join(seq![service] + path.push(method), "_"@)),
        ),
    ensures
        services.contains(service) ==> {
            let r = requested_call(params, services, verdict);
            r is Ok && r->Ok_0.service == service && r->Ok_0.path == path && r->Ok_0.method
                == method
        },
        !services.contains(service) ==> requested_call(params, services, verdict) == Err::<
            CallView,
            _,
        >(
            ErrorView::Validation(
                "Service '"@ + service + "' is not enabled in this MCP session"@,
            ),
        ),
{
    let pieces = seq![service] + path.push(method);
    assert forall|k: int| 0 <= k < pieces.len() implies plain_name(#[trigger] pieces[k]) by {
        if 0 < k < pieces.len() - 1 {
            assert(pieces[k] == path[k - 1]);
        }
    }
    lemma_parts_of_name(pieces);
    lemma_join_front(service, path.push(method));
    lemma_not_a_workflow(service, join(path.push(method), "_"@));
    assert(pieces.subrange(1, pieces.len() - 1) =~= path);
}

/// A call is refused where it has no name that is text.
pub proof fn law_call_needs_a_name(params: JsonView, services: Seq<Seq<char>>, verdict: Verdict)
    requires
        params.get("name"@) is Some ==> params.get("name"@)->0 !is Str,
    ensures
        requested_call(params, services, verdict) == Err::<CallView, _>(
            ErrorView::Validation("Missing 'name' in tools/call"@),
        ),
{
}

/// A call by the name of a workflow is refused, also where it is listed.
pub proof fn law_workflows_cannot_be_called(
    rest: Seq<char>,
    params: JsonView,
    services: Seq<Seq<char>>,
    verdict: Verdict,
)
    requires
        params.get("name"@) == Some(JsonView::Str("workflow_"@ + rest)),
    ensures
        requested_call(params, services, verdict) == Err::<CallView, _>(
            ErrorView::Other("Workflows are not yet fully implemented via MCP"@),
        ),
{
    let name = "workflow_"@ + rest;
    assert("workflow_"@ =~= name.subrange(0, "workflow_"@.len() as int));
    assert("workflow_"@.is_prefix_of(name));
}

/// A call by a name of one part or two is refused, by that name.
pub proof fn law_short_names_are_refused(
    first: Seq<char>,
    second: Seq<char>,
    params: JsonView,
    services: Seq<Seq<char>>,
    verdict: Verdict,
)
    requires
        plain_name(first),
        plain_name(second),
        first != "workflow"@,
    ensures
        params.get("name"@) == Some(JsonView::Str(first)) ==> requested_call(
            params,
            services,
            verdict,
        ) == Err::<CallView, _>(ErrorView::Validation("Invalid API tool name: "@ + first)),
        params.get("name"@) == Some(JsonView::Str(first + "_"@ + second)) ==> requested_call(
            params,
            services,
            verdict,
        ) == Err::<CallView, _>(
            ErrorView::Validation("Invalid API tool name: "@ + (first + "_"@ + second)),
        ),
{
    let one = seq![first];
    let two = seq![first, second];
    lemma_parts_of_name(one);
    lemma_parts_of_name(two);
    lemma_join_front(first, seq![second]);
    assert(seq![first] + seq![second] =~= two);
    assert(join(seq![second], "_"@) == second);
    assert(join(one, "_"@) == first);
    lemma_not_a_workflow(first, second);
    assert(!"workflow_"@.is_prefix_of(first)) by {
        reveal_strlit("workflow_");
        if "workflow_"@.is_prefix_of(first) {
            assert("workflow_"@[8] == first.subrange(0, 9)[8]);
            assert(first[8] == '_');
        }
    }
}

} // verus!
