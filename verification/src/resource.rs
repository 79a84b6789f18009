//! Resources attached to a request, and their routing by tag.
use vstd::prelude::*;

verus! {

/// A resource attached to a request.
#[derive(Debug, Clone)]
pub struct Resource {
    /// What it is called.
    pub name: String,
    /// The tags by which it is routed.
    pub tags: Vec<String>,
    /// Where it can be loaded from.
    pub uri: Option<String>,
    /// Its content, where it is attached directly.
    pub blob: Option<Vec<u8>>,
}

/// The tag that stands for all resources.
pub const ANY_TAG: &'static str = "*";

/// The texts of `strings`.
pub open spec fn texts(strings: Seq<String>) -> Seq<Seq<char>> {
    strings.map_values(|s: String| s@)
}

/// Whether a component that supports `tags` can consume `resource`: it supports all
/// resources, or one of the resource's own tags.
pub open spec fn supports(tags: Seq<Seq<char>>, resource: Resource) -> bool {
    tags.contains(ANY_TAG@) || exists|i: int|
        0 <= i < resource.tags@.len() && tags.contains(#[trigger] resource.tags@[i]@)
}

/// The resources that a component with these tags can consume, in their order.
pub open spec fn supported(resources: Seq<Resource>, tags: Seq<Seq<char>>) -> Seq<Resource> {
    resources.filter(|resource: Resource| supports(tags, resource))
}

/// The resources that a component with these tags cannot consume, in their order.
pub open spec fn unsupported(resources: Seq<Resource>, tags: Seq<Seq<char>>) -> Seq<Resource> {
    resources.filter(|resource: Resource| !supports(tags, resource))
}

/// Whether `tag` is one of `tags`.
fn has_tag(tags: &[String], tag: &String) -> (found: bool)
    ensures
        found == texts(tags@).contains(tag@),
{
    for i in 0..tags.len()
        invariant
            forall|j: int| 0 <= j < i ==> texts(tags@)[j] != tag@,
    {
        if tags[i] == *tag {
            assert(texts(tags@)[i as int] == tag@);
            return true;
        }
    }
    false
}

/// Whether one of the resource's own tags is one of `tags`.
fn shares_tag(tags: &[String], resource: &Resource) -> (shared: bool)
    ensures
        shared == exists|i: int|
            0 <= i < resource.tags@.len() && texts(tags@).contains(#[trigger] resource.tags@[i]@),
{
    for i in 0..resource.tags.len()
        invariant
            forall|j: int|
                0 <= j < i ==> !texts(tags@).contains(#[trigger] resource.tags@[j]@),
    {
        if has_tag(tags, &resource.tags[i]) {
            return true;
        }
    }
    false
}

/// Removes the resources that a component with these tags can consume, and returns them. Both
/// the removed and the remaining resources keep their order.
pub fn select_resources(resources: &mut Vec<Resource>, tags: &[String]) -> (selected: Vec<
    Resource,
>)
    ensures
        selected@ == supported(old(resources)@, texts(tags@)),
        final(resources)@ == unsupported(old(resources)@, texts(tags@)),
{
    let any: String = ANY_TAG.to_string();
    let all: bool = has_tag(tags, &any);
    let ghost wanted = |resource: Resource| supports(texts(tags@), resource);
    let ghost unwanted = |resource: Resource| !supports(texts(tags@), resource);
    let mut offered: Vec<Resource> = Vec::new();
    std::mem::swap(resources, &mut offered);
    let mut selected: Vec<Resource> = Vec::new();
    let ghost before = offered@;
    for resource in iter: offered
        invariant
            iter.seq() == before,
            all == texts(tags@).contains(ANY_TAG@),
            wanted == (|resource: Resource| supports(texts(tags@), resource)),
            unwanted == (|resource: Resource| !supports(texts(tags@), resource)),
            selected@ == before.take(iter.index()).filter(wanted),
            resources@ == before.take(iter.index()).filter(unwanted),
    {
        proof {
            let seen = before.take(iter.index());
            assert(before.take(iter.index() + 1) =~= seen.push(resource));
            seen.lemma_filter_push(resource, wanted);
            seen.lemma_filter_push(resource, unwanted);
        }
        if all || shares_tag(tags, &resource) {
            selected.push(resource);
        } else {
            resources.push(resource);
        }
    }
    assert(before.take(before.len() as int) =~= before);
    selected
}

/// Every resource ends up either selected or kept, once for each time it was offered.
pub proof fn law_selection_partitions(resources: Seq<Resource>, tags: Seq<Seq<char>>)
    ensures
        supported(resources, tags).to_multiset().add(
            unsupported(resources, tags).to_multiset(),
        ) == resources.to_multiset(),
    decreases resources.len(),
{
    broadcast use vstd::seq_lib::group_to_multiset_ensures;

    if resources.len() > 0 {
        let rest = resources.drop_last();
        let last = resources.last();
        law_selection_partitions(rest, tags);
        assert(resources =~= rest.push(last));
        rest.lemma_filter_push(last, |resource: Resource| supports(tags, resource));
        rest.lemma_filter_push(last, |resource: Resource| !supports(tags, resource));
        let selected = supported(rest, tags).to_multiset();
        let kept = unsupported(rest, tags).to_multiset();
        if supports(tags, last) {
            assert(selected.insert(last).add(kept) =~= selected.add(kept).insert(last));
        } else {
            assert(selected.add(kept.insert(last)) =~= selected.add(kept).insert(last));
        }
    } else {
        assert(supported(resources, tags).to_multiset().add(
            unsupported(resources, tags).to_multiset(),
        ) =~= resources.to_multiset());
    }
}

/// The tag that stands for all resources selects all of them and leaves none.
pub proof fn law_any_tag_selects_all(resources: Seq<Resource>, tags: Seq<Seq<char>>)
    requires
        tags.contains(ANY_TAG@),
    ensures
        supported(resources, tags) == resources,
        unsupported(resources, tags) == Seq::<Resource>::empty(),
    decreases resources.len(),
{
    if resources.len() > 0 {
        let rest = resources.drop_last();
        law_any_tag_selects_all(rest, tags);
        assert(resources =~= rest.push(resources.last()));
        rest.lemma_filter_push(
            resources.last(),
            |resource: Resource| supports(tags, resource),
        );
        rest.lemma_filter_push(
            resources.last(),
            |resource: Resource| !supports(tags, resource),
        );
    } else {
        assert(supported(resources, tags) =~= resources);
    }
}

/// A component without tags is given no resource, and all of them remain.
pub proof fn law_no_tags_select_nothing(resources: Seq<Resource>)
    ensures
        supported(resources, Seq::empty()) == Seq::<Resource>::empty(),
        unsupported(resources, Seq::empty()) == resources,
    decreases resources.len(),
{
    let tags = Seq::<Seq<char>>::empty();
    if resources.len() > 0 {
        let rest = resources.drop_last();
        law_no_tags_select_nothing(rest);
        assert(resources =~= rest.push(resources.last()));
        rest.lemma_filter_push(
            resources.last(),
            |resource: Resource| supports(tags, resource),
        );
        rest.lemma_filter_push(
            resources.last(),
            |resource: Resource| !supports(tags, resource),
        );
    } else {
        assert(unsupported(resources, tags) =~= resources);
    }
}

/// What is left after a selection holds nothing for the same tags: to select again returns
/// nothing and leaves everything.
pub proof fn law_selection_is_complete(resources: Seq<Resource>, tags: Seq<Seq<char>>)
    ensures
        supported(unsupported(resources, tags), tags) == Seq::<Resource>::empty(),
        unsupported(unsupported(resources, tags), tags) == unsupported(resources, tags),
    decreases resources.len(),
{
    if resources.len() > 0 {
        let rest = resources.drop_last();
        let last = resources.last();
        law_selection_is_complete(rest, tags);
        assert(resources =~= rest.push(last));
        rest.lemma_filter_push(last, |resource: Resource| !supports(tags, resource));
        if !supports(tags, last) {
            let kept = unsupported(rest, tags);
            kept.lemma_filter_push(last, |resource: Resource| supports(tags, resource));
            kept.lemma_filter_push(last, |resource: Resource| !supports(tags, resource));
        }
    } else {
        assert(unsupported(resources, tags) =~= Seq::<Resource>::empty());
        assert(supported(Seq::<Resource>::empty(), tags) =~= Seq::<Resource>::empty());
    }
}

/// The texts of strings are as many as the strings, each the text of the string in its place.
pub proof fn law_texts_are_those_of_the_strings(strings: Seq<String>)
    ensures
        texts(strings).len() == strings.len(),
        forall|i: int| 0 <= i < strings.len() ==> #[trigger] texts(strings)[i] == strings[i]@,
{
}

/// A resource is routed by its tags alone. One that bears a supported tag, or any at all where
/// `*` is supported, is selected and does not stay; one that bears no supported tag stays and
/// is not selected, where `*` is not supported. Its name, its address and its content do not
/// matter.
pub proof fn law_resources_are_routed_by_tags_alone(
    resources: Seq<Resource>,
    tags: Seq<Seq<char>>,
    resource: Resource,
)
    requires
        resources.contains(resource),
    ensures
        (exists|i: int|
            0 <= i < resource.tags@.len() && tags.contains(#[trigger] resource.tags@[i]@)) ==> {
            &&& supported(resources, tags).contains(resource)
            &&& !unsupported(resources, tags).contains(resource)
        },
        tags.contains("*"@) ==> {
            &&& supported(resources, tags).contains(resource)
            &&& !unsupported(resources, tags).contains(resource)
        },
        !tags.contains("*"@) && (forall|i: int|
            0 <= i < resource.tags@.len() ==> !tags.contains(#[trigger] resource.tags@[i]@)) ==> {
            &&& !supported(resources, tags).contains(resource)
            &&& unsupported(resources, tags).contains(resource)
        },
{
    let wanted = |r: Resource| supports(tags, r);
    let unwanted = |r: Resource| !supports(tags, r);
    let at: int = choose|i: int| 0 <= i < resources.len() && resources[i] == resource;
    if supports(tags, resource) {
        resources.lemma_filter_contains(wanted, at);
        if unsupported(resources, tags).contains(resource) {
            let j: int = choose|j: int|
                0 <= j < unsupported(resources, tags).len() && unsupported(resources, tags)[j]
                    == resource;
            resources.lemma_filter_pred(unwanted, j);
        }
    } else {
        resources.lemma_filter_contains(unwanted, at);
        if supported(resources, tags).contains(resource) {
            let j: int = choose|j: int|
                0 <= j < supported(resources, tags).len() && supported(resources, tags)[j]
                    == resource;
            resources.lemma_filter_pred(wanted, j);
        }
    }
}

/// To select from resources in two parts is to select from each part and join what is selected,
/// and likewise what stays: each resource is routed for itself, and the order is kept.
pub proof fn law_selection_goes_part_by_part(
    front: Seq<Resource>,
    back: Seq<Resource>,
    tags: Seq<Seq<char>>,
)
    ensures
        supported(front + back, tags) == supported(front, tags) + supported(back, tags),
        unsupported(front + back, tags) == unsupported(front, tags) + unsupported(back, tags),
{
    Seq::filter_distributes_over_add(front, back, |r: Resource| supports(tags, r));
    Seq::filter_distributes_over_add(front, back, |r: Resource| !supports(tags, r));
}

/// A single resource is selected exactly if `*` or one of its own tags is supported, and stays
/// exactly if not.
pub proof fn law_selection_of_one(resource: Resource, tags: Seq<Seq<char>>)
    ensures
        (tags.contains("*"@) || exists|i: int|
            0 <= i < resource.tags@.len() && tags.contains(#[trigger] resource.tags@[i]@))
            ==> supported(seq![resource], tags) == seq![resource] && unsupported(
            seq![resource],
            tags,
        ) == Seq::<Resource>::empty(),
        !(tags.contains("*"@) || exists|i: int|
            0 <= i < resource.tags@.len() && tags.contains(#[trigger] resource.tags@[i]@))
            ==> supported(seq![resource], tags) == Seq::<Resource>::empty() && unsupported(
            seq![resource],
            tags,
        ) == seq![resource],
{
    let none = Seq::<Resource>::empty();
    assert(seq![resource] =~= none.push(resource));
    none.lemma_filter_push(resource, |r: Resource| supports(tags, r));
    none.lemma_filter_push(resource, |r: Resource| !supports(tags, r));
    assert(supported(none, tags) =~= none);
    assert(unsupported(none, tags) =~= none);
    assert(none.push(resource) =~= seq![resource]);
}

} // verus!
