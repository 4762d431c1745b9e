//! A one-line description of a recovered surface, for logs and activity
//! reports: its id, how many components it has, and which kinds of
//! component, each kind once and in the order of `str`.

use vstd::prelude::*;

use crate::a2ui::Component;
use crate::chat::{join_next, joined};
use crate::history::PriorSurface;
use crate::sse::{decimal, decimal_text};
use crate::order::{insert_in_order, lemma_ascending_unique, strictly_ascending, text_before, texts_view};
use crate::text::cat;

verus! {


/// Whether some component of `components` is of kind `kind`.
pub open spec fn has_kind(components: Seq<Component>, kind: Seq<char>) -> bool {
    exists|i: int| 0 <= i < components.len() && #[trigger] components[i].component@ == kind
}

/// Whether `kinds` lists the kinds of `components`, each once, in the order
/// of `str`.
pub open spec fn lists_kinds(kinds: Seq<Seq<char>>, components: Seq<Component>) -> bool {
    &&& strictly_ascending(kinds)
    &&& forall|k: Seq<char>| #[trigger] kinds.contains(k) <==> has_kind(components, k)
}


/// The kinds of a list of components can be listed, each once and in the
/// order of `str`, in one way only.
pub proof fn law_kinds_are_listed_one_way(a: Seq<Seq<char>>, b: Seq<Seq<char>>, components: Seq<Component>)
    requires
        lists_kinds(a, components),
        lists_kinds(b, components),
    ensures
        a == b,
{
    assert forall|k: Seq<char>| a.contains(k) <==> b.contains(k) by {
        assert(a.contains(k) <==> has_kind(components, k));
        assert(b.contains(k) <==> has_kind(components, k));
    }
    lemma_ascending_unique(a, b);
}

/// The kinds of `components`, each once, in the order of `str`.
pub open spec fn kinds_of(components: Seq<Component>) -> Seq<Seq<char>> {
    choose|kinds: Seq<Seq<char>>| lists_kinds(kinds, components)
}

/// How a surface is described: its id, its number of components and its
/// kinds of component.
pub open spec fn surface_summary(surface_id: Seq<char>, count: nat, kinds: Seq<Seq<char>>) -> Seq<char> {
    "surface '"@ + surface_id + "' with "@ + decimal_text(count) + " component(s) ["@
        + joined(kinds, ", "@) + "]"@
}


/// A short human-readable summary of a surface, for logs and activity
/// reports.
pub fn describe_surface(prior: &PriorSurface) -> (text: String)
    ensures
        lists_kinds(kinds_of(prior.components@), prior.components@),
        text@ == surface_summary(prior.surface_id@, prior.components@.len(), kinds_of(prior.components@)),
{
    let components = &prior.components;
    let mut kinds: Vec<String> = Vec::new();
    let mut i: usize = 0;
    assert(texts_view(kinds@) =~= Seq::<Seq<char>>::empty());
    while i < components.len()
        invariant
            i <= components@.len(),
            components@ == prior.components@,
            strictly_ascending(texts_view(kinds@)),
            forall|k: Seq<char>| #[trigger] texts_view(kinds@).contains(k)
                <==> has_kind(components@.take(i as int), k),
        decreases components@.len() - i,
    {
        let ghost seen = components@.take(i as int);
        insert_in_order(&mut kinds, components[i].component.as_str());
        proof {
            let next = components@.take(i + 1);
            assert forall|k: Seq<char>| has_kind(next, k) <==> (has_kind(seen, k) || k == components@[i as int].component@) by {
                if has_kind(next, k) {
                    let w = choose|w: int| 0 <= w < next.len() && #[trigger] next[w].component@ == k;
                    if w < i {
                        assert(seen[w] == next[w]);
                    }
                }
                if has_kind(seen, k) {
                    let w = choose|w: int| 0 <= w < seen.len() && #[trigger] seen[w].component@ == k;
                    assert(next[w] == seen[w]);
                }
                if k == components@[i as int].component@ {
                    assert(next[i as int] == components@[i as int]);
                }
            }
        }
        i = i + 1;
    }
    let ghost listed = texts_view(kinds@);
    proof {
        assert(components@.take(components@.len() as int) =~= components@);
        assert(lists_kinds(listed, components@));
        law_kinds_are_listed_one_way(listed, kinds_of(components@), components@);
    }
    let mut list = String::new();
    let mut j: usize = 0;
    assert(listed.take(0) =~= Seq::<Seq<char>>::empty());
    while j < kinds.len()
        invariant
            j <= kinds@.len(),
            listed == texts_view(kinds@),
            list@ == joined(listed.take(j as int), ", "@),
        decreases kinds@.len() - j,
    {
        list = join_next(list, j, kinds[j].as_str(), ", ");
        proof {
            let next = listed.take(j + 1);
            assert(next.drop_last() =~= listed.take(j as int));
            if j == 0 {
                assert(next =~= seq![listed[0]]);
            }
        }
        j = j + 1;
    }
    assert(listed.take(listed.len() as int) =~= listed);
    let start = String::new();
    let text = cat(start, "surface '");
    let text = cat(text, prior.surface_id.as_str());
    let text = cat(text, "' with ");
    let text = cat(text, decimal(components.len()).as_str());
    let text = cat(text, " component(s) [");
    let text = cat(text, list.as_str());
    let text = cat(text, "]");
    proof {
        assert(start@ + "surface '"@ =~= "surface '"@);
    }
    text
}

} // verus!
