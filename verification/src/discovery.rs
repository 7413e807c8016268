//! Discovery documents: the resources of an API, nested, and their methods.

use crate::text::{same_text, texts};
use vstd::prelude::*;

verus! {

/// A method of an API.
pub struct RestMethod {
    pub description: Option<String>,
    pub scopes: Vec<String>,
}

/// A resource: its methods and its sub-resources by name, in the order in which they are walked.
pub struct RestResource {
    pub methods: Vec<(String, RestMethod)>,
    pub resources: Vec<(String, RestResource)>,
}

/// A discovery document.
pub struct RestDescription {
    pub name: String,
    pub resources: Vec<(String, RestResource)>,
}

/// The mathematical content of a [`RestMethod`].
#[verifier::ext_equal]
pub struct MethodView {
    pub description: Option<Seq<char>>,
    pub scopes: Seq<Seq<char>>,
}

/// The mathematical content of a [`RestResource`].
#[verifier::ext_equal]
pub struct ResourceView {
    pub methods: Map<Seq<char>, MethodView>,
    pub resources: Map<Seq<char>, ResourceView>,
}

impl View for RestMethod {
    type V = MethodView;

    open spec fn view(&self) -> MethodView {
        MethodView {
            description: match self.description {
                Some(d) => Some(d@),
                None => None,
            },
            scopes: texts(self.scopes@),
        }
    }
}

/// What the entries of a list stand for, by name.
pub open spec fn by_name<T, V>(list: Seq<(String, T)>, content: spec_fn(T) -> V) -> Map<
    Seq<char>,
    V,
>
    decreases list.len(),
{
    if list.len() == 0 {
        Map::empty()
    } else {
        by_name(list.drop_last(), content).insert(list.last().0@, content(list.last().1))
    }
}

/// Methods by name.
pub open spec fn methods_view(methods: Seq<(String, RestMethod)>) -> Map<Seq<char>, MethodView> {
    by_name(methods, |method: RestMethod| method@)
}

/// What a resource holds.
pub open spec fn resource_view(res: RestResource) -> ResourceView
    decreases res,
{
    ResourceView {
        methods: methods_view(res.methods@),
        resources: resources_view(res.resources@),
    }
}

/// Resources by name.
pub open spec fn resources_view(resources: Seq<(String, RestResource)>) -> Map<
    Seq<char>,
    ResourceView,
>
    decreases resources,
{
    if resources.len() == 0 {
        Map::empty()
    } else {
        resources_view(resources.drop_last()).insert(
            resources.last().0@,
            resource_view(resources.last().1),
        )
    }
}

/// No two entries have one name.
pub open spec fn distinct_names<T>(list: Seq<(String, T)>) -> bool {
    forall|i: int, j: int|
        0 <= i < j < list.len() ==> (#[trigger] list[i]).0@ != (#[trigger] list[j]).0@
}

/// Names are distinct in these resources and, at every depth, below them.
pub open spec fn well_formed(resources: Seq<(String, RestResource)>) -> bool
    decreases resources,
{
    &&& distinct_names(resources)
    &&& forall|i: int|
        0 <= i < resources.len() ==> {
            let res = (#[trigger] resources[i]).1;
            distinct_names(res.methods@) && well_formed(res.resources@)
        }
}

/// What the list holds under `name`: the first entry counts.
pub open spec fn find<T>(list: Seq<(String, T)>, name: Seq<char>) -> Option<T>
    decreases list.len(),
{
    if list.len() == 0 {
        None
    } else if list[0].0@ == name {
        Some(list[0].1)
    } else {
        find(list.skip(1), name)
    }
}

/// The resource at the end of a path of names, or the first name that is not there.
pub open spec fn descend(resources: Seq<(String, RestResource)>, path: Seq<Seq<char>>) -> Result<
    RestResource,
    Seq<char>,
>
    recommends
        path.len() > 0,
    decreases path.len(),
{
    match find(resources, path[0]) {
        None => Err(path[0]),
        Some(res) => if path.len() <= 1 {
            Ok(res)
        } else {
            descend(res.resources@, path.skip(1))
        },
    }
}

/// What is found under a name is an entry of that name; where nothing is found there is none.
pub proof fn lemma_find<T>(list: Seq<(String, T)>, name: Seq<char>)
    ensures
        match find(list, name) {
            Some(t) => exists|i: int|
                0 <= i < list.len() && (#[trigger] list[i]).0@ == name && list[i].1 == t,
            None => forall|i: int| 0 <= i < list.len() ==> (#[trigger] list[i]).0@ != name,
        },
    decreases list.len(),
{
    if list.len() > 0 && list[0].0@ != name {
        let rest = list.skip(1);
        lemma_find(rest, name);
        match find(rest, name) {
            Some(t) => {
                let i = choose|i: int|
                    0 <= i < rest.len() && (#[trigger] rest[i]).0@ == name && rest[i].1 == t;
                assert(list[i + 1] == rest[i]);
            },
            None => {
                assert forall|i: int| 0 <= i < list.len() implies (#[trigger] list[i]).0@
                    != name by {
                    if i > 0 {
                        assert(rest[i - 1] == list[i]);
                    }
                }
            },
        }
    }
}

/// What the list holds under `name`.
pub fn lookup<'a, T>(list: &'a Vec<(String, T)>, name: &str) -> (r: Option<&'a T>)
    ensures
        match r {
            Some(t) => find(list@, name@) == Some(*t),
            None => find(list@, name@) is None,
        },
{
    let mut i: usize = 0;
    assert(list@.skip(0) =~= list@);
    while i < list.len()
        invariant
            i <= list@.len(),
            find(list@, name@) == find(list@.skip(i as int), name@),
        decreases list@.len() - i,
    {
        assert(list@.skip(i as int).skip(1) =~= list@.skip(i + 1));
        if same_text(list[i].0.as_str(), name) {
            return Some(&list[i].1);
        }
        i += 1;
    }
    None
}

/// Follows a path of names down the resources. The position of the first name that is not there
/// comes back otherwise.
pub fn follow<'a>(resources: &'a Vec<(String, RestResource)>, path: &Vec<String>) -> (r: Result<
    &'a RestResource,
    usize,
>)
    requires
        path@.len() > 0,
    ensures
        match r {
            Ok(res) => descend(resources@, texts(path@)) == Ok::<RestResource, Seq<char>>(*res),
            Err(i) => i < path@.len() && descend(resources@, texts(path@)) == Err::<
                RestResource,
                Seq<char>,
            >(path@[i as int]@),
        },
{
    let mut current: &'a Vec<(String, RestResource)> = resources;
    let mut i: usize = 0;
    assert(texts(path@).skip(0) =~= texts(path@));
    while i < path.len() - 1
        invariant
            i < path@.len(),
            descend(resources@, texts(path@)) == descend(current@, texts(path@).skip(i as int)),
        decreases path@.len() - i,
    {
        assert(texts(path@).skip(i as int).skip(1) =~= texts(path@).skip(i + 1));
        match lookup(current, path[i].as_str()) {
            Some(res) => {
                current = &res.resources;
            },
            None => {
                return Err(i);
            },
        }
        i += 1;
    }
    match lookup(current, path[i].as_str()) {
        Some(res) => Ok(res),
        None => Err(i),
    }
}

/// Of the entries with a name the first is found, and nothing is found where there is none.
pub proof fn law_first_entry_is_found<T>(list: Seq<(String, T)>, name: Seq<char>, k: int)
    ensures
        0 <= k < list.len() && list[k].0@ == name && (forall|i: int|
            0 <= i < k ==> (#[trigger] list[i]).0@ != name) ==> find(list, name) == Some(list[k].1),
        (forall|i: int| 0 <= i < list.len() ==> (#[trigger] list[i]).0@ != name) ==> find(
            list,
            name,
        ) is None,
    decreases list.len(),
{
    lemma_find(list, name);
    if 0 < k < list.len() && list[k].0@ == name && (forall|i: int|
        0 <= i < k ==> (#[trigger] list[i]).0@ != name) {
        let rest = list.skip(1);
        assert(list[0].0@ != name);
        assert(rest[k - 1] == list[k]);
        assert forall|i: int| 0 <= i < k - 1 implies (#[trigger] rest[i]).0@ != name by {
            assert(rest[i] == list[i + 1]);
        }
        law_first_entry_is_found(rest, name, k - 1);
    }
}

/// A path leads where its names lead one after the other: one more name leads on from the resource
/// that the names before it lead to, and where a name leads nowhere, no name behind it leads on.
pub proof fn law_path_leads_step_by_step(
    resources: Seq<(String, RestResource)>,
    path: Seq<Seq<char>>,
    name: Seq<char>,
)
    ensures
        descend(resources, seq![name]) == match find(resources, name) {
            Some(res) => Ok::<_, Seq<char>>(res),
            None => Err(name),
        },
        path.len() > 0 ==> descend(resources, path.push(name)) == match descend(resources, path) {
            Ok(res) => match find(res.resources@, name) {
                Some(inner) => Ok::<_, Seq<char>>(inner),
                None => Err(name),
            },
            Err(missing) => Err(missing),
        },
    decreases path.len(),
{
    if path.len() > 0 {
        let longer = path.push(name);
        assert(longer[0] == path[0]);
        match find(resources, path[0]) {
            None => {},
            Some(res) => {
                if path.len() == 1 {
                    assert(longer.skip(1) =~= seq![name]);
                    law_path_leads_step_by_step(res.resources@, Seq::empty(), name);
                } else {
                    assert(longer.skip(1) =~= path.skip(1).push(name));
                    law_path_leads_step_by_step(res.resources@, path.skip(1), name);
                }
            },
        }
    }
}

} // verus!
