//! Choosing the component catalog a surface speaks: the renderer lists the
//! catalogs it supports in order of preference (and may send catalogs of its
//! own), the agent offers the catalogs it can generate for, and the first
//! preference the agent can meet wins.

use vstd::prelude::*;

use crate::chat::joined;
use crate::data_model::{
    find_member, items_model, key_position, law_setting_a_member, lemma_object_model, lemma_read_member,
    lemma_read_one_more, member_value, members_model, read_at, with_member, Json, JsonTree,
};
use crate::text::cat;

verus! {

/// The `catalogId` a catalog schema declares, if it declares one as text.
pub open spec fn catalog_id(schema: Json) -> Option<Seq<char>> {
    match schema {
        Json::Object(m) => match key_position(m, "catalogId"@) {
            Some(i) => match m[i].1 {
                Json::Text(t) => Some(t),
                _ => None,
            },
            None => None,
        },
        _ => None,
    }
}

/// The `catalogId` a catalog schema declares.
pub fn catalog_id_of(schema: &JsonTree) -> (id: Option<&str>)
    ensures
        match catalog_id(schema@) {
            Some(t) => id matches Some(s) && s@ == t,
            None => id is None,
        },
{
    proof {
        reveal_strlit("catalogId");
    }
    match schema {
        JsonTree::Object(members) => {
            proof {
                lemma_object_model(*members);
            }
            let key = "catalogId".to_owned();
            match find_member(members, &key) {
                Some(i) => match &members[i].1 {
                    JsonTree::Text(t) => Some(t.as_str()),
                    _ => None,
                },
                None => None,
            }
        },
        _ => None,
    }
}

/// Whether `i` is the first of `supported` declaring `id`.
pub open spec fn is_first_catalog(supported: Seq<Json>, id: Seq<char>, i: int) -> bool {
    &&& 0 <= i < supported.len()
    &&& catalog_id(supported[i]) == Some(id)
    &&& forall|j: int| 0 <= j < i ==> catalog_id(supported[j]) != Some(id)
}

/// The first of `supported` declaring `id`.
pub open spec fn catalog_with(supported: Seq<Json>, id: Seq<char>) -> Option<int> {
    if exists|i: int| is_first_catalog(supported, id, i) {
        Some(choose|i: int| is_first_catalog(supported, id, i))
    } else {
        None
    }
}

/// The catalog of the first preference the agent can meet.
pub open spec fn preferred_catalog(supported: Seq<Json>, preferred: Seq<Seq<char>>) -> Option<int>
    decreases preferred.len(),
{
    if preferred.len() == 0 {
        None
    } else {
        match catalog_with(supported, preferred[0]) {
            Some(i) => Some(i),
            None => preferred_catalog(supported, preferred.skip(1)),
        }
    }
}

/// Whether one of `supported` declares `id`.
pub open spec fn declares(supported: Seq<Json>, id: Seq<char>) -> bool {
    exists|j: int| 0 <= j < supported.len() && catalog_id(#[trigger] supported[j]) == Some(id)
}

/// A declared id has a first catalog declaring it.
proof fn lemma_declared_has_first(supported: Seq<Json>, id: Seq<char>, j: int)
    requires
        0 <= j < supported.len(),
        catalog_id(supported[j]) == Some(id),
    ensures
        catalog_with(supported, id) is Some,
    decreases j,
{
    if forall|t: int| 0 <= t < j ==> catalog_id(supported[t]) != Some(id) {
        assert(is_first_catalog(supported, id, j));
    } else {
        let t = choose|t: int| 0 <= t < j && catalog_id(supported[t]) == Some(id);
        lemma_declared_has_first(supported, id, t);
    }
}

/// The renderer's order decides: the catalog chosen by preference declares
/// the first preferred id that any of the agent's catalogs declares, and is
/// the first of them to declare it; no preference is met only where the
/// agent declares none of the preferred ids.
pub proof fn law_the_renderers_order_decides(supported: Seq<Json>, preferred: Seq<Seq<char>>)
    ensures
        match preferred_catalog(supported, preferred) {
            Some(i) => {
                &&& 0 <= i < supported.len()
                &&& exists|k: int| {
                    &&& 0 <= k < preferred.len()
                    &&& catalog_id(supported[i]) == Some(#[trigger] preferred[k])
                    &&& forall|m: int| 0 <= m < k ==> !declares(supported, #[trigger] preferred[m])
                    &&& forall|j: int| 0 <= j < i ==> catalog_id(#[trigger] supported[j]) != Some(preferred[k])
                }
            },
            None => forall|k: int| 0 <= k < preferred.len() ==> !declares(supported, #[trigger] preferred[k]),
        },
    decreases preferred.len(),
{
    if preferred.len() > 0 {
        let rest = preferred.skip(1);
        law_the_renderers_order_decides(supported, rest);
        match catalog_with(supported, preferred[0]) {
            Some(i) => {
                assert(is_first_catalog(supported, preferred[0], i));
                assert(catalog_id(supported[i]) == Some(preferred[0]));
            },
            None => {
                assert(!declares(supported, preferred[0])) by {
                    if declares(supported, preferred[0]) {
                        let j = choose|j: int| 0 <= j < supported.len() && catalog_id(#[trigger] supported[j]) == Some(preferred[0]);
                        lemma_declared_has_first(supported, preferred[0], j);
                    }
                }
                match preferred_catalog(supported, rest) {
                    Some(i) => {
                        let k = choose|k: int| {
                            &&& 0 <= k < rest.len()
                            &&& catalog_id(supported[i]) == Some(#[trigger] rest[k])
                            &&& forall|m: int| 0 <= m < k ==> !declares(supported, #[trigger] rest[m])
                            &&& forall|j: int| 0 <= j < i ==> catalog_id(#[trigger] supported[j]) != Some(rest[k])
                        };
                        assert(rest[k] == preferred[k + 1]);
                        assert forall|m: int| 0 <= m < k + 1 implies !declares(supported, #[trigger] preferred[m]) by {
                            if m > 0 {
                                assert(preferred[m] == rest[m - 1]);
                            }
                        }
                        assert(catalog_id(supported[i]) == Some(preferred[k + 1]));
                    },
                    None => {
                        assert forall|k: int| 0 <= k < preferred.len() implies !declares(supported, #[trigger] preferred[k]) by {
                            if k > 0 {
                                assert(preferred[k] == rest[k - 1]);
                            }
                        }
                    },
                }
            },
        }
    }
}

/// A chosen catalog is one of the agent's.
pub proof fn lemma_preferred_in_range(supported: Seq<Json>, preferred: Seq<Seq<char>>)
    ensures
        preferred_catalog(supported, preferred) matches Some(i) ==> 0 <= i < supported.len(),
    decreases preferred.len(),
{
    if preferred.len() > 0 {
        lemma_preferred_in_range(supported, preferred.skip(1));
    }
}

/// The first of `supported` declaring `id`.
fn find_catalog(supported: &[JsonTree], id: &str) -> (found: Option<usize>)
    ensures
        match found {
            Some(i) => catalog_with(items_model(supported@), id@) == Some(i as int),
            None => catalog_with(items_model(supported@), id@) is None,
        },
{
    let ghost all = items_model(supported@);
    let wanted = id.to_owned();
    let mut i: usize = 0;
    while i < supported.len()
        invariant
            all == items_model(supported@),
            wanted@ == id@,
            i <= supported@.len(),
            forall|j: int| 0 <= j < i ==> catalog_id(all[j]) != Some(id@),
        decreases supported@.len() - i,
    {
        let hit = match catalog_id_of(&supported[i]) {
            Some(own) => own.to_owned() == wanted,
            None => false,
        };
        assert(all[i as int] == supported@[i as int]@);
        if hit {
            assert(is_first_catalog(all, id@, i as int));
            let ghost c = choose|c: int| is_first_catalog(all, id@, c);
            assert(c == i) by {
                if c < i {
                    assert(catalog_id(all[c]) != Some(id@));
                } else if c > i {
                    assert(catalog_id(all[i as int]) == Some(id@));
                }
            }
            return Some(i);
        }
        i = i + 1;
    }
    assert(!exists|c: int| is_first_catalog(all, id@, c));
    None
}

/// The texts of a list of strings.
pub open spec fn texts(ids: Seq<String>) -> Seq<Seq<char>> {
    ids.map_values(|s: String| s@)
}

/// The catalog the renderer's first preference the agent can meet names.
pub fn match_by_preference<'a>(supported: &'a [JsonTree], preferred: &[String]) -> (found: Option<&'a JsonTree>)
    ensures
        match preferred_catalog(items_model(supported@), texts(preferred@)) {
            Some(i) => found == Some(&supported@[i]),
            None => found is None,
        },
{
    let ghost all = texts(preferred@);
    let mut k: usize = 0;
    assert(all.skip(0) =~= all);
    while k < preferred.len()
        invariant
            all == texts(preferred@),
            k <= preferred@.len(),
            preferred_catalog(items_model(supported@), all) == preferred_catalog(items_model(supported@), all.skip(k as int)),
        decreases preferred@.len() - k,
    {
        let ghost rest = all.skip(k as int);
        assert(rest[0] == preferred@[k as int]@);
        assert(rest.skip(1) =~= all.skip(k + 1));
        match find_catalog(supported, preferred[k].as_str()) {
            Some(i) => {
                return Some(&supported[i]);
            },
            None => {},
        }
        k = k + 1;
    }
    assert(all.skip(k as int).len() == 0);
    None
}

/// `existing` with every member of `extra` set in it, in order.
pub open spec fn with_all(existing: Seq<(Seq<char>, Json)>, extra: Seq<(Seq<char>, Json)>) -> Seq<(Seq<char>, Json)>
    decreases extra.len(),
{
    if extra.len() == 0 {
        existing
    } else {
        let before = with_all(existing, extra.drop_last());
        with_member(before, extra.last().0, extra.last().1)
    }
}

/// `target` with the definitions of `source`'s `section` added: the section
/// is created where it is missing, and left alone where it is not an object.
pub open spec fn with_section(target: Seq<(Seq<char>, Json)>, source: Json, section: Seq<char>) -> Seq<(Seq<char>, Json)> {
    match source {
        Json::Object(s) => match key_position(s, section) {
            Some(j) => match s[j].1 {
                Json::Object(extra) => match key_position(target, section) {
                    Some(i) => match target[i].1 {
                        Json::Object(existing) => target.update(i, (section, Json::Object(with_all(existing, extra)))),
                        _ => target,
                    },
                    None => target.push((section, Json::Object(with_all(Seq::empty(), extra)))),
                },
                _ => target,
            },
            None => target,
        },
        _ => target,
    }
}

/// `target` with the component and function definitions of `source` added;
/// nothing else of `source` is taken, and a `target` that is not an object is
/// left as it is.
pub open spec fn merged_catalog(target: Json, source: Json) -> Json {
    match target {
        Json::Object(m) => Json::Object(with_section(with_section(m, source, "components"@), source, "functions"@)),
        _ => target,
    }
}

/// The value of the last member named `key` in `members`, where there is
/// one.
pub open spec fn last_value(members: Seq<(Seq<char>, Json)>, key: Seq<char>) -> Option<Json>
    decreases members.len(),
{
    if members.len() == 0 {
        None
    } else if members.last().0 == key {
        Some(members.last().1)
    } else {
        last_value(members.drop_last(), key)
    }
}

/// Merging definitions: a name the added definitions give is defined as
/// the last of them says, replacing what was there; every other name keeps
/// what it had.
pub proof fn law_added_definitions_win(existing: Seq<(Seq<char>, Json)>, extra: Seq<(Seq<char>, Json)>, key: Seq<char>)
    ensures
        member_value(with_all(existing, extra), key) == match last_value(extra, key) {
            Some(v) => Some(v),
            None => member_value(existing, key),
        },
    decreases extra.len(),
{
    if extra.len() > 0 {
        law_added_definitions_win(existing, extra.drop_last(), key);
        law_setting_a_member(with_all(existing, extra.drop_last()), extra.last().0, extra.last().1, key);
    }
}

/// A section set in a catalog reads back as what it was set to, and the
/// other sections are left as they were.
proof fn lemma_with_section(target: Seq<(Seq<char>, Json)>, source: Json, section: Seq<char>, other: Seq<char>)
    ensures
        with_section(target, source, section) == target || exists|v: Json| with_section(target, source, section)
            == with_member(target, section, v),
        other != section ==> member_value(with_section(target, source, section), other) == member_value(target, other),
{
    match source {
        Json::Object(s) => match key_position(s, section) {
            Some(j) => match s[j].1 {
                Json::Object(extra) => match key_position(target, section) {
                    Some(i) => match target[i].1 {
                        Json::Object(existing) => {
                            let v = Json::Object(with_all(existing, extra));
                            assert(with_section(target, source, section) == with_member(target, section, v));
                            law_setting_a_member(target, section, v, other);
                        },
                        _ => {},
                    },
                    None => {
                        let v = Json::Object(with_all(Seq::empty(), extra));
                        assert(with_section(target, source, section) == with_member(target, section, v));
                        law_setting_a_member(target, section, v, other);
                    },
                },
                _ => {},
            },
            None => {},
        },
        _ => {},
    }
}

/// After a catalog is merged into another, every component or function the
/// merged catalog defines is defined as it says (the last definition, where
/// it gives several), whatever the other catalog had under that name; the
/// other definitions of a section that was there are kept.
pub proof fn law_merged_definitions_replace(
    target: Seq<(Seq<char>, Json)>,
    source: Seq<(Seq<char>, Json)>,
    section: Seq<char>,
    extra: Seq<(Seq<char>, Json)>,
    key: Seq<char>,
)
    requires
        section == "components"@ || section == "functions"@,
        member_value(source, section) == Some(Json::Object(extra)),
        match member_value(target, section) {
            Some(Json::Object(_)) => true,
            None => true,
            _ => false,
        },
    ensures
        read_at(merged_catalog(Json::Object(target), Json::Object(source)), seq![section, key]) == match last_value(extra, key) {
            Some(v) => Some(v),
            None => match member_value(target, section) {
                Some(Json::Object(existing)) => member_value(existing, key),
                _ => None,
            },
        },
{
    reveal_strlit("components");
    reveal_strlit("functions");
    let first = with_section(target, Json::Object(source), "components"@);
    let both = with_section(first, Json::Object(source), "functions"@);
    let other = if section == "components"@ { "functions"@ } else { "components"@ };
    assert(other != section) by {
        assert(other.len() != section.len());
    }
    let j = key_position(source, section)->Some_0;
    let merged_section = match member_value(target, section) {
        Some(Json::Object(existing)) => with_all(existing, extra),
        _ => with_all(Seq::empty(), extra),
    };
    // The section merged into sits in `both` as the merge of the two.
    if section == "components"@ {
        match key_position(target, section) {
            Some(i) => {
                assert(first == with_member(target, section, Json::Object(merged_section)));
            },
            None => {
                assert(first == with_member(target, section, Json::Object(merged_section)));
            },
        }
        law_setting_a_member(target, section, Json::Object(merged_section), section);
        lemma_with_section(first, Json::Object(source), "functions"@, section);
    } else {
        lemma_with_section(target, Json::Object(source), "components"@, section);
        match key_position(first, section) {
            Some(i) => {
                assert(both == with_member(first, section, Json::Object(merged_section)));
            },
            None => {
                assert(both == with_member(first, section, Json::Object(merged_section)));
            },
        }
        law_setting_a_member(first, section, Json::Object(merged_section), section);
    }
    assert(member_value(both, section) == Some(Json::Object(merged_section)));
    lemma_read_one_more(Json::Object(both), seq![section], key);
    assert(seq![section].push(key) =~= seq![section, key]);
    lemma_read_member(both, section);
    lemma_read_member(merged_section, key);
    law_added_definitions_win(
        match member_value(target, section) {
            Some(Json::Object(existing)) => existing,
            _ => Seq::empty(),
        },
        extra,
        key,
    );
    assert(member_value(Seq::<(Seq<char>, Json)>::empty(), key) is None);
}

/// Sets every member of `extra` in `existing`, in order.
fn set_all(existing: &mut Vec<(String, JsonTree)>, extra: &Vec<(String, JsonTree)>)
    ensures
        members_model(final(existing)@) == with_all(members_model(old(existing)@), members_model(extra@)),
{
    let ghost start = members_model(existing@);
    let ghost all = members_model(extra@);
    let mut k: usize = 0;
    assert(all.take(0) =~= Seq::<(Seq<char>, Json)>::empty());
    while k < extra.len()
        invariant
            all == members_model(extra@),
            k <= extra@.len(),
            members_model(existing@) == with_all(start, all.take(k as int)),
        decreases extra@.len() - k,
    {
        assert(all.take(k + 1).drop_last() =~= all.take(k as int));
        let ghost before = members_model(existing@);
        let key = extra[k].0.clone();
        let value = extra[k].1.duplicate();
        let ghost v = value@;
        match find_member(existing, &key) {
            Some(i) => {
                let _replaced = existing.remove(i);
                existing.insert(i, (key, value));
                assert(members_model(existing@) =~= before.update(i as int, (all[k as int].0, v)));
            },
            None => {
                existing.push((key, value));
                assert(members_model(existing@) =~= before.push((all[k as int].0, v)));
            },
        }
        k = k + 1;
    }
    assert(all.take(extra@.len() as int) =~= all);
}

/// Adds the definitions of `source`'s `section` to `target`'s members.
fn merge_section(target: &mut Vec<(String, JsonTree)>, source: &JsonTree, section: &str)
    ensures
        members_model(final(target)@) == with_section(members_model(old(target)@), source@, section@),
{
    let ghost before = members_model(target@);
    let section_key = section.to_owned();
    let extra = match source {
        JsonTree::Object(s) => {
            proof {
                lemma_object_model(*s);
            }
            match find_member(s, &section_key) {
                Some(j) => match &s[j].1 {
                    JsonTree::Object(extra) => Some(extra),
                    _ => None,
                },
                None => None,
            }
        },
        _ => None,
    };
    match extra {
        None => {},
        Some(extra) => {
            proof {
                lemma_object_model(*extra);
            }
            match find_member(target, &section_key) {
                Some(i) => {
                    let (key, existing) = target.remove(i);
                    match existing {
                        JsonTree::Object(mut members) => {
                            proof {
                                lemma_object_model(members);
                            }
                            set_all(&mut members, extra);
                            let ghost merged = members_model(members@);
                            proof {
                                lemma_object_model(members);
                            }
                            target.insert(i, (key, JsonTree::Object(members)));
                            assert(members_model(target@) =~= before.update(i as int, (section@, Json::Object(merged))));
                        },
                        other => {
                            target.insert(i, (key, other));
                            assert(members_model(target@) =~= before);
                        },
                    }
                },
                None => {
                    let mut members: Vec<(String, JsonTree)> = Vec::new();
                    assert(members_model(members@) =~= Seq::<(Seq<char>, Json)>::empty());
                    set_all(&mut members, extra);
                    let ghost merged = members_model(members@);
                    proof {
                        lemma_object_model(members);
                    }
                    target.push((section_key, JsonTree::Object(members)));
                    assert(members_model(target@) =~= before.push((section@, Json::Object(merged))));
                },
            }
        },
    }
}

/// Adds the component and function definitions of `source` to `target`.
pub fn merge_components(target: &mut JsonTree, source: &JsonTree)
    ensures
        final(target)@ == merged_catalog(old(target)@, source@),
{
    proof {
        reveal_strlit("components");
        reveal_strlit("functions");
    }
    let mut taken = JsonTree::Null;
    std::mem::swap(&mut taken, target);
    match taken {
        JsonTree::Object(mut members) => {
            proof {
                lemma_object_model(members);
            }
            merge_section(&mut members, source, "components");
            merge_section(&mut members, source, "functions");
            proof {
                lemma_object_model(members);
            }
            *target = JsonTree::Object(members);
        },
        other => {
            *target = other;
        },
    }
}

/// What a renderer supports: catalog ids in order of preference, and
/// catalogs of its own.
#[derive(Debug, Clone, Default, PartialEq)]
pub struct ClientCapabilities {
    /// Catalog ids, most preferred first.
    pub supported_catalog_ids: Vec<String>,
    /// Catalogs the renderer defines itself.
    pub inline_catalogs: Vec<JsonTree>,
}

impl ClientCapabilities {
    /// A renderer supporting `ids`, in that order, with no catalogs of its own.
    pub fn supporting(ids: &[&str]) -> (caps: Self)
        ensures
            caps.supported_catalog_ids@.map_values(|s: String| s@) == ids@.map_values(|s: &str| s@),
            caps.inline_catalogs@.len() == 0,
    {
        let mut supported: Vec<String> = Vec::new();
        let mut i: usize = 0;
        while i < ids.len()
            invariant
                i <= ids@.len(),
                supported@.len() == i,
                forall|j: int| 0 <= j < i ==> (#[trigger] supported@[j])@ == ids@[j]@,
            decreases ids@.len() - i,
        {
            supported.push(ids[i].to_owned());
            i = i + 1;
        }
        assert(supported@.map_values(|s: String| s@) =~= ids@.map_values(|s: &str| s@));
        ClientCapabilities { supported_catalog_ids: supported, inline_catalogs: Vec::new() }
    }
}

/// Why catalogs the renderer sent are refused.
pub open spec fn inline_refused_reason() -> Seq<char> {
    "the renderer supplied inline catalogs but the agent does not accept inline catalogs"@
}

/// Why an agent with no catalogs cannot serve.
pub open spec fn no_catalogs_reason() -> Seq<char> {
    "the agent has no catalogs to offer"@
}

/// The ids the agent's catalogs declare, in order.
pub open spec fn offered(supported: Seq<Json>) -> Seq<Seq<char>>
    decreases supported.len(),
{
    if supported.len() == 0 {
        Seq::empty()
    } else {
        match catalog_id(supported.last()) {
            Some(id) => offered(supported.drop_last()).push(id),
            None => offered(supported.drop_last()),
        }
    }
}

/// Why no catalog can be chosen when the preferences and the offer do not
/// meet.
pub open spec fn no_overlap_reason(preferred: Seq<Seq<char>>, supported: Seq<Json>) -> Seq<char> {
    "No client-supported catalog found: the renderer supports ["@ + joined(preferred, ", "@) + "], the agent offers ["@
        + joined(offered(supported), ", "@) + "]"@
}

/// `base` with each of `inline`'s definitions added, in order.
pub open spec fn merged_all(base: Json, inline: Seq<Json>) -> Json
    decreases inline.len(),
{
    if inline.len() == 0 {
        base
    } else {
        merged_catalog(merged_all(base, inline.drop_last()), inline.last())
    }
}

/// The catalog chosen, or why none can be: the first preference the agent
/// can meet, else (where the renderer names none, or sends its own
/// catalogs) the agent's first; the renderer's own definitions are then
/// added to it.
pub open spec fn selected_catalog(supported: Seq<Json>, preferred: Seq<Seq<char>>, inline: Seq<Json>, accepts_inline: bool) -> Result<Json, Seq<char>> {
    if inline.len() > 0 && !accepts_inline {
        Err(inline_refused_reason())
    } else {
        let base = match preferred_catalog(supported, preferred) {
            Some(i) => Ok(supported[i]),
            None => if inline.len() > 0 || preferred.len() == 0 {
                if supported.len() > 0 {
                    Ok(supported[0])
                } else {
                    Err(no_catalogs_reason())
                }
            } else {
                Err(no_overlap_reason(preferred, supported))
            },
        };
        match base {
            Ok(b) => Ok(merged_all(b, inline)),
            Err(reason) => Err(reason),
        }
    }
}

/// Whether a catalog's component and function sections, where it has
/// them, are objects, so that definitions can be merged into them.
pub open spec fn sections_mergeable(members: Seq<(Seq<char>, Json)>) -> bool {
    &&& match member_value(members, "components"@) {
        Some(Json::Object(_)) => true,
        None => true,
        _ => false,
    }
    &&& match member_value(members, "functions"@) {
        Some(Json::Object(_)) => true,
        None => true,
        _ => false,
    }
}

/// Merging a catalog into one whose sections can take definitions gives a
/// catalog whose sections still can.
proof fn lemma_merge_keeps_mergeable(target: Seq<(Seq<char>, Json)>, source: Json)
    requires
        sections_mergeable(target),
    ensures
        merged_catalog(Json::Object(target), source) matches Json::Object(m) && sections_mergeable(m),
{
    reveal_strlit("components");
    reveal_strlit("functions");
    assert("components"@ != "functions"@) by {
        assert("components"@.len() != "functions"@.len());
    }
    let first = with_section(target, source, "components"@);
    let both = with_section(first, source, "functions"@);
    lemma_with_section(target, source, "components"@, "functions"@);
    lemma_with_section(first, source, "functions"@, "components"@);
    lemma_section_set_is_object(target, source, "components"@);
    lemma_section_set_is_object(first, source, "functions"@);
}

/// Where a section is merged into, it is an object afterwards; where it is
/// not, it is as it was.
proof fn lemma_section_set_is_object(target: Seq<(Seq<char>, Json)>, source: Json, section: Seq<char>)
    requires
        match member_value(target, section) {
            Some(Json::Object(_)) => true,
            None => true,
            _ => false,
        },
    ensures
        match member_value(with_section(target, source, section), section) {
            Some(Json::Object(_)) => true,
            None => true,
            _ => false,
        },
{
    match source {
        Json::Object(s) => match key_position(s, section) {
            Some(j) => match s[j].1 {
                Json::Object(extra) => match key_position(target, section) {
                    Some(i) => match target[i].1 {
                        Json::Object(existing) => {
                            let v = Json::Object(with_all(existing, extra));
                            assert(with_section(target, source, section) == with_member(target, section, v));
                            law_setting_a_member(target, section, v, section);
                        },
                        _ => {},
                    },
                    None => {
                        let v = Json::Object(with_all(Seq::empty(), extra));
                        assert(with_section(target, source, section) == with_member(target, section, v));
                        law_setting_a_member(target, section, v, section);
                    },
                },
                _ => {},
            },
            None => {},
        },
        _ => {},
    }
}

/// The renderer's catalogs are merged in order, and the last word is
/// theirs: a component or function the last of them defines is defined as
/// it says, whatever the agent's catalog or an earlier inline catalog had.
pub proof fn law_the_last_inline_definition_wins(
    base: Seq<(Seq<char>, Json)>,
    inline: Seq<Json>,
    source: Seq<(Seq<char>, Json)>,
    section: Seq<char>,
    extra: Seq<(Seq<char>, Json)>,
    key: Seq<char>,
)
    requires
        sections_mergeable(base),
        inline.len() > 0,
        inline.last() == Json::Object(source),
        section == "components"@ || section == "functions"@,
        member_value(source, section) == Some(Json::Object(extra)),
        last_value(extra, key) is Some,
    ensures
        read_at(merged_all(Json::Object(base), inline), seq![section, key]) == last_value(extra, key),
{
    lemma_merged_all_mergeable(base, inline.drop_last());
    let t = merged_all(Json::Object(base), inline.drop_last())->Object_0;
    reveal_strlit("components");
    reveal_strlit("functions");
    law_merged_definitions_replace(t, source, section, extra, key);
}

/// Merging any number of catalogs into one whose sections can take
/// definitions gives a catalog whose sections still can.
proof fn lemma_merged_all_mergeable(base: Seq<(Seq<char>, Json)>, inline: Seq<Json>)
    requires
        sections_mergeable(base),
    ensures
        merged_all(Json::Object(base), inline) matches Json::Object(m) && sections_mergeable(m),
    decreases inline.len(),
{
    if inline.len() > 0 {
        lemma_merged_all_mergeable(base, inline.drop_last());
        let t = merged_all(Json::Object(base), inline.drop_last())->Object_0;
        lemma_merge_keeps_mergeable(t, inline.last());
    }
}

/// Why no catalog could be chosen.
#[derive(Debug, Clone, PartialEq, Eq)]
pub struct CatalogError {
    /// What went wrong.
    pub message: String,
}

impl CatalogError {
    /// What is said about it.
    pub fn to_string(&self) -> (text: String)
        ensures
            text@ == self.message@,
    {
        self.message.clone()
    }
}

/// `pieces` joined with `separator`.
fn join_all(pieces: &Vec<String>, separator: &str) -> (text: String)
    ensures
        text@ == joined(texts(pieces@), separator@),
{
    let mut text = String::new();
    let mut i: usize = 0;
    assert(texts(pieces@).take(0) =~= Seq::<Seq<char>>::empty());
    while i < pieces.len()
        invariant
            i <= pieces@.len(),
            text@ == joined(texts(pieces@).take(i as int), separator@),
        decreases pieces@.len() - i,
    {
        let ghost before = texts(pieces@).take(i as int);
        let ghost after = texts(pieces@).take(i + 1);
        assert(after.drop_last() =~= before);
        assert(after.last() == pieces@[i as int]@);
        if i == 0 {
            text = pieces[i].clone();
            assert(after =~= seq![pieces@[0]@]);
        } else {
            text = cat(cat(text, separator), pieces[i].as_str());
        }
        i = i + 1;
    }
    assert(texts(pieces@).take(pieces@.len() as int) =~= texts(pieces@));
    text
}

/// The ids the agent's catalogs declare, in order.
fn offered_ids(supported: &[JsonTree]) -> (ids: Vec<String>)
    ensures
        texts(ids@) == offered(items_model(supported@)),
{
    let mut ids: Vec<String> = Vec::new();
    let mut i: usize = 0;
    assert(items_model(supported@).take(0) =~= Seq::<Json>::empty());
    while i < supported.len()
        invariant
            i <= supported@.len(),
            texts(ids@) == offered(items_model(supported@).take(i as int)),
        decreases supported@.len() - i,
    {
        let ghost all = items_model(supported@);
        assert(all.take(i + 1).drop_last() =~= all.take(i as int));
        assert(all.take(i + 1).last() == supported@[i as int]@);
        let ghost before = texts(ids@);
        match catalog_id_of(&supported[i]) {
            Some(id) => {
                ids.push(id.to_owned());
                assert(texts(ids@) =~= before.push(id@));
            },
            None => {},
        }
        i = i + 1;
    }
    assert(items_model(supported@).take(supported@.len() as int) =~= items_model(supported@));
    ids
}

/// Picks the catalog schema to generate with, and adds the renderer's own
/// definitions to it.
pub fn select_catalog_schema(supported: &[JsonTree], capabilities: &ClientCapabilities, accepts_inline: bool) -> (chosen: Result<JsonTree, CatalogError>)
    ensures
        match selected_catalog(
            items_model(supported@),
            texts(capabilities.supported_catalog_ids@),
            items_model(capabilities.inline_catalogs@),
            accepts_inline,
        ) {
            Ok(c) => chosen matches Ok(t) && t@ == c,
            Err(m) => chosen matches Err(e) && e.message@ == m,
        },
{
    let inline = &capabilities.inline_catalogs;
    if inline.len() > 0 && !accepts_inline {
        return Err(CatalogError {
            message: "the renderer supplied inline catalogs but the agent does not accept inline catalogs".to_owned(),
        });
    }
    let base: &JsonTree = match match_by_preference(supported, capabilities.supported_catalog_ids.as_slice()) {
        Some(found) => found,
        None => {
            if inline.len() > 0 || capabilities.supported_catalog_ids.len() == 0 {
                if supported.len() > 0 {
                    &supported[0]
                } else {
                    return Err(CatalogError { message: "the agent has no catalogs to offer".to_owned() });
                }
            } else {
                let wanted = join_all(&capabilities.supported_catalog_ids, ", ");
                let offer = join_all(&offered_ids(supported), ", ");
                let message = cat("No client-supported catalog found: the renderer supports [".to_owned(), wanted.as_str());
                let message = cat(message, "], the agent offers [");
                let message = cat(message, offer.as_str());
                let message = cat(message, "]");
                return Err(CatalogError { message });
            }
        },
    };
    assert(forall|i: int| 0 <= i < supported@.len() ==> items_model(supported@)[i] == (#[trigger] supported@[i])@);
    proof {
        lemma_preferred_in_range(items_model(supported@), texts(capabilities.supported_catalog_ids@));
    }
    assert(base@ == match preferred_catalog(items_model(supported@), texts(capabilities.supported_catalog_ids@)) {
        Some(i) => items_model(supported@)[i],
        None => items_model(supported@)[0],
    });
    let mut selected = base.duplicate();
    let ghost base_model = selected@;
    let ghost all = items_model(inline@);
    let mut k: usize = 0;
    assert(all.take(0) =~= Seq::<Json>::empty());
    while k < inline.len()
        invariant
            all == items_model(inline@),
            k <= inline@.len(),
            selected@ == merged_all(base_model, all.take(k as int)),
        decreases inline@.len() - k,
    {
        assert(all.take(k + 1).drop_last() =~= all.take(k as int));
        assert(all.take(k + 1).last() == inline@[k as int]@);
        merge_components(&mut selected, &inline[k]);
        k = k + 1;
    }
    assert(all.take(inline@.len() as int) =~= all);
    Ok(selected)
}

/// A catalog the agent can generate for, under a local name.
#[derive(Debug, Clone, PartialEq)]
pub struct RegistryEntry {
    /// The local name.
    pub name: String,
    /// The catalog schema.
    pub schema: JsonTree,
}

impl RegistryEntry {
    /// The id the catalog declares on the wire, or else its local name.
    pub open spec fn wire_id(self) -> Seq<char> {
        match catalog_id(self.schema@) {
            Some(id) => id,
            None => self.name@,
        }
    }

    /// The id the catalog declares on the wire, or else its local name.
    pub fn catalog_id(&self) -> (id: &str)
        ensures
            id@ == self.wire_id(),
    {
        match catalog_id_of(&self.schema) {
            Some(id) => id,
            None => self.name.as_str(),
        }
    }
}

/// The catalogs an agent can generate for, in the order they were added.
#[derive(Debug, Clone, Default)]
pub struct CatalogRegistry {
    entries: Vec<RegistryEntry>,
}

impl View for CatalogRegistry {
    type V = Seq<RegistryEntry>;

    closed spec fn view(&self) -> Seq<RegistryEntry> {
        self.entries@
    }
}

impl CatalogRegistry {
    /// No catalogs.
    pub fn new() -> (registry: Self)
        ensures
            registry@.len() == 0,
    {
        CatalogRegistry { entries: Vec::new() }
    }

    /// Adds `schema` under the local `name`.
    pub fn insert(&mut self, name: &str, schema: JsonTree)
        ensures
            final(self)@.len() == old(self)@.len() + 1,
            final(self)@.drop_last() == old(self)@,
            final(self)@.last().name@ == name@,
            final(self)@.last().schema == schema,
    {
        self.entries.push(RegistryEntry { name: name.to_owned(), schema });
        assert(self.entries@.drop_last() =~= old(self).entries@);
    }

    /// The catalogs, in order.
    pub fn entries(&self) -> (entries: &[RegistryEntry])
        ensures
            entries@ == self@,
    {
        self.entries.as_slice()
    }

    /// Copies of the catalog schemas, in order.
    pub fn schemas(&self) -> (schemas: Vec<JsonTree>)
        ensures
            items_model(schemas@) == self@.map_values(|e: RegistryEntry| e.schema@),
    {
        let mut schemas: Vec<JsonTree> = Vec::new();
        let mut i: usize = 0;
        while i < self.entries.len()
            invariant
                i <= self.entries@.len(),
                schemas@.len() == i,
                forall|j: int| 0 <= j < i ==> (#[trigger] schemas@[j])@ == self.entries@[j].schema@,
            decreases self.entries@.len() - i,
        {
            schemas.push(self.entries[i].schema.duplicate());
            i = i + 1;
        }
        assert(items_model(schemas@) =~= self@.map_values(|e: RegistryEntry| e.schema@));
        schemas
    }

    /// The ids the catalogs declare on the wire, in order.
    pub fn supported_catalog_ids(&self) -> (ids: Vec<String>)
        ensures
            texts(ids@) == self@.map_values(|e: RegistryEntry| e.wire_id()),
    {
        let mut ids: Vec<String> = Vec::new();
        let mut i: usize = 0;
        while i < self.entries.len()
            invariant
                i <= self.entries@.len(),
                ids@.len() == i,
                forall|j: int| 0 <= j < i ==> (#[trigger] ids@[j])@ == self.entries@[j].wire_id(),
            decreases self.entries@.len() - i,
        {
            ids.push(self.entries[i].catalog_id().to_owned());
            i = i + 1;
        }
        assert(texts(ids@) =~= self@.map_values(|e: RegistryEntry| e.wire_id()));
        ids
    }

    /// Whether `entry` goes by `id`, on the wire or locally.
    pub open spec fn goes_by(entry: RegistryEntry, id: Seq<char>) -> bool {
        entry.wire_id() == id || entry.name@ == id
    }

    /// The first catalog whose wire id or local name is `id`.
    pub fn get(&self, id: &str) -> (found: Option<&RegistryEntry>)
        ensures
            match found {
                Some(e) => exists|i: int|
                    0 <= i < self@.len() && self@[i] == *e && Self::goes_by(*e, id@) && forall|j: int|
                        0 <= j < i ==> !Self::goes_by(#[trigger] self@[j], id@),
                None => forall|j: int| 0 <= j < self@.len() ==> !Self::goes_by(#[trigger] self@[j], id@),
            },
    {
        let wanted = id.to_owned();
        let mut i: usize = 0;
        while i < self.entries.len()
            invariant
                wanted@ == id@,
                i <= self.entries@.len(),
                forall|j: int| 0 <= j < i ==> !Self::goes_by(#[trigger] self.entries@[j], id@),
            decreases self.entries@.len() - i,
        {
            let entry = &self.entries[i];
            let by_id = entry.catalog_id().to_owned() == wanted;
            let by_name = entry.name == wanted;
            if by_id || by_name {
                assert(0 <= i < self@.len() && self@[i as int] == *entry);
                return Some(entry);
            }
            assert(!Self::goes_by(self.entries@[i as int], id@));
            i = i + 1;
        }
        None
    }
}

} // verus!
