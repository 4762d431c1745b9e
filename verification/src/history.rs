//! Recovering a previously rendered surface from the A2UI operations a
//! conversation holds.
//!
//! The surface an agent rendered a few turns ago is not stored anywhere; the
//! renderer holds it. The operations that built it are still in the
//! conversation, so replaying every operation for that surface, oldest
//! first, reconstructs its components, data model and `catalogId`.

use vstd::prelude::*;

use crate::a2ui::{AgentMessage, AgentPayload, Component};
use crate::data_model::{apply_data_model_update, data_model_updated, members_model, Json, JsonTree};
use crate::ids::text_eq;
use crate::json::{is_object, items_of, json_items, json_member, json_members, json_parsed, member_of, parse_json};
use crate::text::{trim, trimmed};
use crate::sse::{decimal, decimal_text, digit_char};
use crate::text::cat;

verus! {

/// A component by value: its id, its type and its properties.
pub type ComponentView = (Seq<char>, Seq<char>, Seq<(Seq<char>, Json)>);

/// What `c` is, by value.
pub open spec fn component_view(c: Component) -> ComponentView {
    (c.id@, c.component@, members_model(c.props@))
}

/// The surface an operation targets, if it targets one.
pub open spec fn target_of(op: AgentMessage) -> Option<Seq<char>> {
    match op.payload {
        AgentPayload::CreateSurface(m) => Some(m.surface_id@),
        AgentPayload::UpdateComponents(m) => Some(m.surface_id@),
        AgentPayload::UpdateDataModel(m) => Some(m.surface_id@),
        AgentPayload::DeleteSurface(m) => Some(m.surface_id@),
        _ => None,
    }
}

/// The surface the newest operation that targets one targets.
pub open spec fn newest_surface(ops: Seq<AgentMessage>) -> Option<Seq<char>>
    decreases ops.len(),
{
    if ops.len() == 0 {
        None
    } else {
        match target_of(ops.last()) {
            Some(t) => Some(t),
            None => newest_surface(ops.drop_last()),
        }
    }
}

/// A surface as the renderer holds it after some operations.
pub struct SurfaceView {
    /// The catalog of the last `createSurface`.
    pub catalog_id: Option<Seq<char>>,
    /// Components in first-definition order.
    pub components: Seq<ComponentView>,
    /// The data model.
    pub data_model: Json,
    /// Whether the last word on the surface was `deleteSurface`.
    pub deleted: bool,
    /// Whether any operation targeted the surface.
    pub seen: bool,
}

/// Whether the first component with `id` stands at `i`.
pub open spec fn is_first_id(components: Seq<ComponentView>, id: Seq<char>, i: int) -> bool {
    &&& 0 <= i < components.len()
    &&& components[i].0 == id
    &&& forall|j: int| 0 <= j < i ==> components[j].0 != id
}

/// Where the first component with `id` stands, if there is one.
pub open spec fn id_position(components: Seq<ComponentView>, id: Seq<char>) -> Option<int> {
    if exists|i: int| is_first_id(components, id, i) {
        Some(choose|i: int| is_first_id(components, id, i))
    } else {
        None
    }
}

/// `components` with `c` defined: a redefinition replaces the body and keeps
/// the position, a new id goes at the end.
pub open spec fn with_definition(components: Seq<ComponentView>, c: ComponentView) -> Seq<ComponentView> {
    match id_position(components, c.0) {
        Some(i) => components.update(i, c),
        None => components.push(c),
    }
}

/// `components` with each of `defs` defined, in order.
pub open spec fn with_definitions(components: Seq<ComponentView>, defs: Seq<ComponentView>) -> Seq<ComponentView>
    decreases defs.len(),
{
    if defs.len() == 0 {
        components
    } else {
        with_definition(with_definitions(components, defs.drop_last()), defs.last())
    }
}

/// Nothing seen yet.
pub open spec fn unseen() -> SurfaceView {
    SurfaceView {
        catalog_id: None,
        components: Seq::empty(),
        data_model: Json::Null,
        deleted: false,
        seen: false,
    }
}

/// `state` after `op`, for the surface `target`: a `createSurface` starts
/// the surface over, `updateComponents` defines components, an
/// `updateDataModel` that applies is applied, and `deleteSurface` empties it.
pub open spec fn replayed_op(state: SurfaceView, op: AgentMessage, target: Seq<char>) -> SurfaceView {
    if target_of(op) != Some(target) {
        state
    } else {
        match op.payload {
            AgentPayload::CreateSurface(m) => SurfaceView {
                catalog_id: Some(m.catalog_id@),
                components: Seq::empty(),
                data_model: Json::Null,
                deleted: false,
                seen: true,
            },
            AgentPayload::UpdateComponents(m) => SurfaceView {
                components: with_definitions(
                    state.components,
                    m.components@.map_values(|c: Component| component_view(c)),
                ),
                deleted: false,
                seen: true,
                ..state
            },
            AgentPayload::UpdateDataModel(m) => SurfaceView {
                data_model: match data_model_updated(state.data_model, m.path@, m.value@) {
                    Ok(after) => after,
                    Err(_) => state.data_model,
                },
                seen: true,
                ..state
            },
            AgentPayload::DeleteSurface(_) => SurfaceView {
                components: Seq::empty(),
                data_model: Json::Null,
                deleted: true,
                seen: true,
                ..state
            },
            _ => state,
        }
    }
}

/// The surface `target` after every one of `ops`, oldest first.
pub open spec fn replayed(ops: Seq<AgentMessage>, target: Seq<char>) -> SurfaceView
    decreases ops.len(),
{
    if ops.len() == 0 {
        unseen()
    } else {
        replayed_op(replayed(ops.drop_last(), target), ops.last(), target)
    }
}

/// A surface reconstructed from history.
#[derive(Debug, Clone, PartialEq)]
pub struct PriorSurface {
    /// The surface's id, to reuse on update.
    pub surface_id: String,
    /// The catalog it was created with; `None` where no `createSurface` was
    /// found.
    pub catalog_id: Option<String>,
    /// Components as they stood after the last operation, in
    /// first-definition order.
    pub components: Vec<Component>,
    /// The data model after replaying every `updateDataModel`.
    pub data_model: JsonTree,
    /// Whether the surface was deleted after being rendered.
    pub deleted: bool,
}

impl PriorSurface {
    /// Whether this is the surface `target` as `state` describes it.
    pub open spec fn shows(self, target: Seq<char>, state: SurfaceView) -> bool {
        &&& self.surface_id@ == target
        &&& match self.catalog_id {
            Some(c) => state.catalog_id == Some(c@),
            None => state.catalog_id is None,
        }
        &&& self.components@.map_values(|c: Component| component_view(c)) == state.components
        &&& self.data_model@ == state.data_model
        &&& self.deleted == state.deleted
    }

    /// Whether the first component with `id` stands at `i`.
    pub open spec fn first_with_id(self, id: Seq<char>, i: int) -> bool {
        &&& 0 <= i < self.components@.len()
        &&& self.components@[i].id@ == id
        &&& forall|j: int| 0 <= j < i ==> self.components@[j].id@ != id
    }

    /// The first component with `id`, if there is one.
    pub fn component(&self, id: &str) -> (found: Option<&Component>)
        ensures
            match found {
                Some(c) => exists|i: int| #[trigger] self.first_with_id(id@, i) && self.components@[i] == *c,
                None => forall|j: int| 0 <= j < self.components@.len() ==> self.components@[j].id@ != id@,
            },
    {
        let wanted = id.to_owned();
        let mut i: usize = 0;
        while i < self.components.len()
            invariant
                i <= self.components@.len(),
                wanted@ == id@,
                forall|j: int| 0 <= j < i ==> self.components@[j].id@ != id@,
            decreases self.components@.len() - i,
        {
            if self.components[i].id == wanted {
                let found = &self.components[i];
                assert(self.first_with_id(id@, i as int));
                return Some(found);
            }
            i = i + 1;
        }
        None
    }
}

/// Whether `op` targets the surface `target`.
fn targets(op: &AgentMessage, target: &String) -> (hit: bool)
    ensures
        hit == (target_of(*op) == Some(target@)),
{
    match &op.payload {
        AgentPayload::CreateSurface(m) => m.surface_id == *target,
        AgentPayload::UpdateComponents(m) => m.surface_id == *target,
        AgentPayload::UpdateDataModel(m) => m.surface_id == *target,
        AgentPayload::DeleteSurface(m) => m.surface_id == *target,
        _ => false,
    }
}

/// The surface the newest operation that targets one targets.
fn newest(ops: &[AgentMessage]) -> (target: Option<String>)
    ensures
        match target {
            Some(t) => newest_surface(ops@) == Some(t@),
            None => newest_surface(ops@) is None,
        },
{
    let mut i: usize = ops.len();
    assert(ops@.take(ops@.len() as int) =~= ops@);
    while i > 0
        invariant
            i <= ops@.len(),
            newest_surface(ops@) == newest_surface(ops@.take(i as int)),
        decreases i,
    {
        let ghost prefix = ops@.take(i as int);
        assert(prefix.drop_last() =~= ops@.take(i - 1));
        assert(prefix.last() == ops@[i - 1]);
        match ops[i - 1].surface_id() {
            Some(id) => {
                return Some(id.to_owned());
            },
            None => {},
        }
        i = i - 1;
    }
    None
}

/// Where the first component with `id` stands.
fn find_component(components: &Vec<Component>, id: &String) -> (found: Option<usize>)
    ensures
        match found {
            Some(i) => id_position(components@.map_values(|c: Component| component_view(c)), id@) == Some(i as int),
            None => id_position(components@.map_values(|c: Component| component_view(c)), id@) is None,
        },
{
    let ghost views = components@.map_values(|c: Component| component_view(c));
    let mut i: usize = 0;
    while i < components.len()
        invariant
            i <= components@.len(),
            views == components@.map_values(|c: Component| component_view(c)),
            forall|j: int| 0 <= j < i ==> views[j].0 != id@,
        decreases components@.len() - i,
    {
        if components[i].id == *id {
            assert(is_first_id(views, id@, i as int));
            let ghost c = choose|c: int| is_first_id(views, id@, c);
            assert(c == i) by {
                if c < i {
                    assert(views[c].0 != id@);
                } else if c > i {
                    assert(views[i as int].0 == id@);
                }
            }
            return Some(i);
        }
        i = i + 1;
    }
    assert(!exists|c: int| is_first_id(views, id@, c));
    None
}

/// `components` with each of `defs` defined, in order.
fn define_all(components: &mut Vec<Component>, defs: &Vec<Component>)
    ensures
        final(components)@.map_values(|c: Component| component_view(c)) == with_definitions(
            old(components)@.map_values(|c: Component| component_view(c)),
            defs@.map_values(|c: Component| component_view(c)),
        ),
{
    let ghost start = components@.map_values(|c: Component| component_view(c));
    let ghost all = defs@.map_values(|c: Component| component_view(c));
    let mut k: usize = 0;
    assert(all.take(0) =~= Seq::<ComponentView>::empty());
    while k < defs.len()
        invariant
            k <= defs@.len(),
            all == defs@.map_values(|c: Component| component_view(c)),
            components@.map_values(|c: Component| component_view(c)) == with_definitions(start, all.take(k as int)),
        decreases defs@.len() - k,
    {
        let ghost before = components@.map_values(|c: Component| component_view(c));
        let def = defs[k].duplicate();
        assert(component_view(def) == all[k as int]);
        let id = def.id.clone();
        match find_component(components, &id) {
            Some(i) => {
                let _replaced = components.remove(i);
                components.insert(i, def);
                assert(components@.map_values(|c: Component| component_view(c)) =~= before.update(
                    i as int,
                    all[k as int],
                ));
            },
            None => {
                components.push(def);
                assert(components@.map_values(|c: Component| component_view(c)) =~= before.push(all[k as int]));
            },
        }
        assert(all.take(k + 1).drop_last() =~= all.take(k as int));
        k = k + 1;
    }
    assert(all.take(defs@.len() as int) =~= all);
}

/// Which surface the search is about: the one named, or else the newest.
pub open spec fn surface_sought(ops: Seq<AgentMessage>, surface_id: Option<&str>) -> Option<Seq<char>> {
    match surface_id {
        Some(id) => Some(id@),
        None => newest_surface(ops),
    }
}

/// The surface id a new surface gets when none is asked for.
pub const DEFAULT_SURFACE_ID: &'static str = "main";

/// Whether an operation of `ops` targets the surface `id`.
pub open spec fn id_used(ops: Seq<AgentMessage>, id: Seq<char>) -> bool {
    exists|i: int| 0 <= i < ops.len() && target_of(#[trigger] ops[i]) == Some(id)
}

/// `base`, a hyphen, and `n` in decimal.
pub open spec fn numbered_id(base: Seq<char>, n: nat) -> Seq<char> {
    base + "-"@ + decimal_text(n)
}

/// The id new surface ids are made from: `base`, or the default where
/// `base` is empty.
pub open spec fn id_base(base: Seq<char>) -> Seq<char> {
    if base.len() == 0 {
        DEFAULT_SURFACE_ID@
    } else {
        base
    }
}

/// Whether `n` is the least number from 2 up whose numbered id no
/// operation of `ops` uses.
pub open spec fn least_free(ops: Seq<AgentMessage>, base: Seq<char>, n: nat) -> bool {
    &&& 2 <= n
    &&& !id_used(ops, numbered_id(base, n))
    &&& forall|m: nat| 2 <= m < n ==> id_used(ops, #[trigger] numbered_id(base, m))
}

/// A surface id no operation of `ops` uses: the base itself where it is
/// free, else the base numbered with the least free number from 2 up.
pub open spec fn fresh_surface_id(ops: Seq<AgentMessage>, base: Seq<char>) -> Seq<char> {
    let b = id_base(base);
    if !id_used(ops, b) {
        b
    } else {
        numbered_id(b, choose|n: nat| least_free(ops, b, n))
    }
}

/// A number in decimal has at least one digit.
proof fn lemma_decimal_nonempty(n: nat)
    ensures
        decimal_text(n).len() >= 1,
    decreases n,
{
    if n >= 10 {
        lemma_decimal_nonempty(n / 10);
    }
}

/// Two numbers written the same in decimal are the same number.
proof fn lemma_decimal_injective(m: nat, n: nat)
    requires
        decimal_text(m) == decimal_text(n),
    ensures
        m == n,
    decreases m,
{
    if m < 10 && n < 10 {
        assert(decimal_text(m)[0] == digit_char(m));
        assert(decimal_text(n)[0] == digit_char(n));
    } else if m < 10 {
        lemma_decimal_nonempty(n / 10);
        assert(decimal_text(n).len() >= 2);
    } else if n < 10 {
        lemma_decimal_nonempty(m / 10);
        assert(decimal_text(m).len() >= 2);
    } else {
        let dm = decimal_text(m);
        let dn = decimal_text(n);
        assert(dm.last() == digit_char(m % 10));
        assert(dn.last() == digit_char(n % 10));
        assert(dm.drop_last() =~= decimal_text(m / 10));
        assert(dn.drop_last() =~= decimal_text(n / 10));
        lemma_decimal_injective(m / 10, n / 10);
    }
}

/// Distinct numbers give distinct numbered ids.
proof fn lemma_numbered_injective(base: Seq<char>, m: nat, n: nat)
    requires
        numbered_id(base, m) == numbered_id(base, n),
    ensures
        m == n,
{
    reveal_strlit("-");
    let k = base.len() + 1int;
    assert(numbered_id(base, m).skip(k) =~= decimal_text(m));
    assert(numbered_id(base, n).skip(k) =~= decimal_text(n));
    lemma_decimal_injective(m, n);
}

/// Of the numbers 2 to `ops.len() + 2`, one is free: there are more of
/// them than operations.
proof fn lemma_some_number_is_free(ops: Seq<AgentMessage>, base: Seq<char>)
    ensures
        exists|n: nat| 2 <= n <= ops.len() + 2 && !id_used(ops, #[trigger] numbered_id(base, n)),
{
    if forall|n: nat| 2 <= n <= ops.len() + 2 ==> id_used(ops, #[trigger] numbered_id(base, n)) {
        let targets = ops.map_values(|op: AgentMessage| target_of(op));
        let range = vstd::set_lib::set_int_range(2, ops.len() + 3int);
        let f = |i: int| Some(numbered_id(base, i as nat));
        vstd::set_lib::lemma_int_range(2, ops.len() + 3int);
        assert(vstd::relations::injective_on(f, range)) by {
            assert forall|x1: int, x2: int| range.contains(x1) && range.contains(x2) && #[trigger] f(x1) == #[trigger] f(x2)
                implies x1 == x2 by {
                lemma_numbered_injective(base, x1 as nat, x2 as nat);
            }
        }
        vstd::set_lib::lemma_map_size(range, range.map(f), f);
        assert(range.map(f).subset_of(targets.to_set())) by {
            assert forall|y: Option<Seq<char>>| range.map(f).contains(y) implies targets.to_set().contains(y) by {
                let x = choose|x: int| range.contains(x) && f(x) == y;
                let n = x as nat;
                assert(2 <= n <= ops.len() + 2);
                assert(id_used(ops, numbered_id(base, n)));
                let i = choose|i: int| 0 <= i < ops.len() && target_of(#[trigger] ops[i]) == Some(numbered_id(base, n));
                assert(targets[i] == y);
            }
        }
        vstd::set_lib::lemma_len_subset(range.map(f), targets.to_set());
        targets.lemma_cardinality_of_set();
        assert(false);
    }
}

/// Whether an operation of `ops` targets the surface `id`.
fn id_in_use(ops: &[AgentMessage], id: &String) -> (used: bool)
    ensures
        used == id_used(ops@, id@),
{
    let mut i: usize = 0;
    while i < ops.len()
        invariant
            i <= ops@.len(),
            forall|j: int| 0 <= j < i ==> target_of(#[trigger] ops@[j]) != Some(id@),
        decreases ops@.len() - i,
    {
        if targets(&ops[i], id) {
            return true;
        }
        i = i + 1;
    }
    false
}

/// A surface id that no operation in `operations` uses: `createSurface`
/// wants an id unique for the renderer's lifetime, so a second surface in
/// one conversation needs a fresh one. `base` (or the default, where it is
/// empty) where that is free, else `base-2`, `base-3` and on, the first that
/// is.
pub fn next_surface_id(operations: &[AgentMessage], base: &str) -> (id: String)
    requires
        operations@.len() + 2 <= usize::MAX,
    ensures
        id@ == fresh_surface_id(operations@, base@),
        !id_used(operations@, id@),
{
    proof {
        reveal_strlit("");
        assert(base@.len() == 0 ==> base@ =~= ""@);
    }
    let b: String = if text_eq(base, "") {
        DEFAULT_SURFACE_ID.to_owned()
    } else {
        base.to_owned()
    };
    assert(b@ == id_base(base@));
    if !id_in_use(operations, &b) {
        return b;
    }
    let prefix = cat(b, "-");
    let mut n: usize = 2;
    loop
        invariant
            2 <= n <= operations@.len() + 2,
            operations@.len() + 2 <= usize::MAX,
            prefix@ == id_base(base@) + "-"@,
            id_used(operations@, id_base(base@)),
            forall|m: nat| 2 <= m < n ==> id_used(operations@, #[trigger] numbered_id(id_base(base@), m)),
        decreases operations@.len() + 2 - n,
    {
        let candidate = cat(prefix.clone(), decimal(n).as_str());
        let ghost bb = id_base(base@);
        assert(candidate@ == numbered_id(bb, n as nat));
        if !id_in_use(operations, &candidate) {
            proof {
                assert(least_free(operations@, bb, n as nat));
                let c = choose|k: nat| least_free(operations@, bb, k);
                if c < n {
                    assert(id_used(operations@, numbered_id(bb, c)));
                } else if c > n {
                    assert(id_used(operations@, numbered_id(bb, n as nat)));
                }
                assert(c == n);
            }
            return candidate;
        }
        proof {
            if n == operations@.len() + 2 {
                lemma_some_number_is_free(operations@, bb);
                let k = choose|k: nat| 2 <= k <= operations@.len() + 2 && !id_used(operations@, #[trigger] numbered_id(bb, k));
                if k < n {
                    assert(id_used(operations@, numbered_id(bb, k)));
                }
                assert(false);
            }
        }
        n = n + 1;
    }
}

/// One entry of conversation history. Callers map their own chat messages
/// onto it; its operations are found with [`operation_values`].
#[derive(Clone, Debug, Default, PartialEq)]
pub struct HistoryMessage {
    /// Who produced the message; only reported.
    pub role: String,
    /// The text, which may hold operations as JSON.
    pub content: String,
    /// A structured payload the transport carried (a tool result, a data
    /// part), read before the text.
    pub data: Option<serde_json::Value>,
}

impl HistoryMessage {
    /// A message with text only.
    pub fn text(role: &str, content: &str) -> (message: Self)
        ensures
            message.role@ == role@,
            message.content@ == content@,
            message.data is None,
    {
        HistoryMessage { role: role.to_owned(), content: content.to_owned(), data: None }
    }

    /// A message carrying a structured payload and no text.
    pub fn data(role: &str, data: serde_json::Value) -> (message: Self)
        ensures
            message.role@ == role@,
            message.content@.len() == 0,
            message.data == Some(data),
    {
        HistoryMessage { role: role.to_owned(), content: String::new(), data: Some(data) }
    }
}

/// The key of the transport envelope that carries a list of operations.
pub const A2UI_OPERATIONS_KEY: &'static str = "a2ui_operations";

/// The values in `value` that may be operations: the list an operations
/// envelope carries (nothing, where its member is not a list); else the
/// items of a list; else an object itself; else nothing.
pub open spec fn candidates_of(value: serde_json::Value) -> Seq<serde_json::Value> {
    match json_member(value, A2UI_OPERATIONS_KEY@) {
        Some(carried) => match json_items(carried) {
            Some(items) => items,
            None => Seq::empty(),
        },
        None => match json_items(value) {
            Some(items) => items,
            None => if json_members(value) is Some {
                seq![value]
            } else {
                Seq::empty()
            },
        },
    }
}

/// The values a history message holds that may be operations: those of its
/// structured payload, then those of its text, trimmed, where that parses
/// as JSON.
pub open spec fn operation_values_of(content: Seq<char>, data: Option<serde_json::Value>) -> Seq<serde_json::Value> {
    let carried = match data {
        Some(d) => candidates_of(d),
        None => Seq::empty(),
    };
    let text = trimmed(content);
    if text.len() == 0 {
        carried
    } else {
        match json_parsed(text) {
            Some(v) => carried + candidates_of(v),
            None => carried,
        }
    }
}

/// Appends the values in `value` that may be operations.
fn collect_candidates(value: &serde_json::Value, out: &mut Vec<serde_json::Value>)
    ensures
        final(out)@ == old(out)@ + candidates_of(*value),
{
    match member_of(value, A2UI_OPERATIONS_KEY) {
        Some(carried) => {
            match items_of(&carried) {
                Some(items) => {
                    let mut items = items;
                    out.append(&mut items);
                },
                None => {
                    assert(old(out)@ + Seq::<serde_json::Value>::empty() =~= old(out)@);
                },
            }
        },
        None => {
            match items_of(value) {
                Some(items) => {
                    let mut items = items;
                    out.append(&mut items);
                },
                None => {
                    if is_object(value) {
                        out.push(value.clone());
                        assert(old(out)@.push(*value) =~= old(out)@ + seq![*value]);
                    } else {
                        assert(old(out)@ + Seq::<serde_json::Value>::empty() =~= old(out)@);
                    }
                },
            }
        },
    }
}

/// The values a history message's text and structured payload hold that
/// may be operations, in the order [`operation_values_of`] gives: each is
/// then read as an operation, and one that is not an operation is skipped.
/// An operations envelope gives the list it carries.
pub fn operation_values(content: &str, data: Option<&serde_json::Value>) -> (values: Vec<serde_json::Value>)
    ensures
        values@ == operation_values_of(
            content@,
            match data {
                Some(d) => Some(*d),
                None => None,
            },
        ),
{
    let mut out: Vec<serde_json::Value> = Vec::new();
    match data {
        Some(d) => collect_candidates(d, &mut out),
        None => {},
    }
    assert(out@ == match data {
        Some(d) => candidates_of(*d),
        None => Seq::<serde_json::Value>::empty(),
    }) by {
        if let Some(d) = data {
            assert(Seq::<serde_json::Value>::empty() + candidates_of(*d) =~= candidates_of(*d));
        }
    }
    let text = trim(content);
    proof {
        reveal_strlit("");
        assert(text@.len() == 0 ==> text@ =~= ""@);
    }
    if text_eq(text, "") {
        return out;
    }
    match parse_json(text) {
        Some(v) => collect_candidates(&v, &mut out),
        None => {},
    }
    out
}

/// The surface `surface_id` names (or, where it names none, the surface the
/// newest operation targets), rebuilt by replaying `operations`, oldest
/// first. `None` where no operation targets it.
pub fn find_prior_surface_by_id(operations: &[AgentMessage], surface_id: Option<&str>) -> (prior: Option<PriorSurface>)
    ensures
        match surface_sought(operations@, surface_id) {
            None => prior is None,
            Some(t) => if replayed(operations@, t).seen {
                prior matches Some(p) && p.shows(t, replayed(operations@, t))
            } else {
                prior is None
            },
        },
{
    let target = match surface_id {
        Some(id) => id.to_owned(),
        None => match newest(operations) {
            Some(t) => t,
            None => {
                return None;
            },
        },
    };
    let ghost t = target@;
    let mut catalog_id: Option<String> = None;
    let mut components: Vec<Component> = Vec::new();
    let mut data_model = JsonTree::Null;
    let mut deleted = false;
    let mut seen = false;
    let mut k: usize = 0;
    assert(operations@.take(0) =~= Seq::<AgentMessage>::empty());
    assert(components@.map_values(|c: Component| component_view(c)) =~= Seq::<ComponentView>::empty());
    while k < operations.len()
        invariant
            k <= operations@.len(),
            target@ == t,
            ({
                let state = replayed(operations@.take(k as int), t);
                &&& match catalog_id {
                    Some(c) => state.catalog_id == Some(c@),
                    None => state.catalog_id is None,
                }
                &&& components@.map_values(|c: Component| component_view(c)) == state.components
                &&& data_model@ == state.data_model
                &&& deleted == state.deleted
                &&& seen == state.seen
            }),
        decreases operations@.len() - k,
    {
        let op = &operations[k];
        assert(operations@.take(k + 1).drop_last() =~= operations@.take(k as int));
        assert(operations@.take(k + 1).last() == *op);
        if targets(op, &target) {
            seen = true;
            match &op.payload {
                AgentPayload::CreateSurface(create) => {
                    catalog_id = Some(create.catalog_id.clone());
                    components = Vec::new();
                    data_model = JsonTree::Null;
                    deleted = false;
                    assert(components@.map_values(|c: Component| component_view(c)) =~= Seq::<ComponentView>::empty());
                },
                AgentPayload::UpdateComponents(update) => {
                    deleted = false;
                    define_all(&mut components, &update.components);
                },
                AgentPayload::UpdateDataModel(update) => {
                    let _applied = apply_data_model_update(&mut data_model, update.path.as_str(), &update.value);
                },
                AgentPayload::DeleteSurface(_) => {
                    deleted = true;
                    components = Vec::new();
                    data_model = JsonTree::Null;
                    assert(components@.map_values(|c: Component| component_view(c)) =~= Seq::<ComponentView>::empty());
                },
                _ => {},
            }
        }
        k = k + 1;
    }
    assert(operations@.take(operations@.len() as int) =~= operations@);
    if !seen {
        return None;
    }
    Some(PriorSurface { surface_id: target, catalog_id, components, data_model, deleted })
}

/// The surface the newest operation targets, rebuilt from `operations`.
pub fn find_prior_surface(operations: &[AgentMessage]) -> (prior: Option<PriorSurface>)
    ensures
        match newest_surface(operations@) {
            None => prior is None,
            Some(t) => prior matches Some(p) && p.shows(t, replayed(operations@, t)),
        },
{
    let prior = find_prior_surface_by_id(operations, None);
    proof {
        if let Some(t) = newest_surface(operations@) {
            lemma_newest_is_seen(operations@);
        }
    }
    prior
}

/// The surface the newest operation targets has been seen.
pub proof fn lemma_newest_is_seen(ops: Seq<AgentMessage>)
    requires
        newest_surface(ops) is Some,
    ensures
        replayed(ops, newest_surface(ops)->Some_0).seen,
    decreases ops.len(),
{
    let t = newest_surface(ops)->Some_0;
    if target_of(ops.last()) == Some(t) {
    } else {
        lemma_newest_is_seen(ops.drop_last());
        lemma_seen_stays(ops.drop_last(), ops.last(), t);
    }
}

/// Once seen, a surface stays seen.
proof fn lemma_seen_stays(ops: Seq<AgentMessage>, op: AgentMessage, t: Seq<char>)
    requires
        replayed(ops, t).seen,
    ensures
        replayed(ops.push(op), t).seen,
{
    assert(ops.push(op).drop_last() =~= ops);
}

/// Re-creating a surface starts it over: whatever came before, the surface
/// after a `createSurface` is the new catalog with nothing on it.
pub proof fn law_recreating_a_surface_starts_it_over(ops: Seq<AgentMessage>, create: AgentMessage)
    requires
        create.payload is CreateSurface,
    ensures
        ({
            let t = target_of(create)->Some_0;
            let after = replayed(ops.push(create), t);
            &&& after.catalog_id == Some(create.payload->CreateSurface_0.catalog_id@)
            &&& after.components.len() == 0
            &&& after.data_model == Json::Null
            &&& !after.deleted
            &&& after.seen
        }),
{
    assert(ops.push(create).drop_last() =~= ops);
}

/// Operations for other surfaces change nothing about this one.
pub proof fn law_other_surfaces_are_ignored(ops: Seq<AgentMessage>, op: AgentMessage, t: Seq<char>)
    requires
        target_of(op) != Some(t),
    ensures
        replayed(ops.push(op), t) == replayed(ops, t),
{
    assert(ops.push(op).drop_last() =~= ops);
}

/// Whether `op` targets the surface `t`.
pub open spec fn aims_at(op: AgentMessage, t: Seq<char>) -> bool {
    target_of(op) == Some(t)
}

/// A surface is recovered exactly when some operation targets it.
pub proof fn law_a_surface_is_seen_iff_targeted(ops: Seq<AgentMessage>, t: Seq<char>)
    ensures
        replayed(ops, t).seen <==> exists|i: int| 0 <= i < ops.len() && #[trigger] aims_at(ops[i], t),
    decreases ops.len(),
{
    if ops.len() > 0 {
        let prev = ops.drop_last();
        law_a_surface_is_seen_iff_targeted(prev, t);
        if exists|i: int| 0 <= i < prev.len() && #[trigger] aims_at(prev[i], t) {
            let i = choose|i: int| 0 <= i < prev.len() && #[trigger] aims_at(prev[i], t);
            assert(aims_at(ops[i], t));
        }
        if exists|i: int| 0 <= i < ops.len() && #[trigger] aims_at(ops[i], t) {
            let i = choose|i: int| 0 <= i < ops.len() && #[trigger] aims_at(ops[i], t);
            if i < prev.len() {
                assert(aims_at(prev[i], t));
            }
        }
        if aims_at(ops.last(), t) {
            assert(aims_at(ops[ops.len() - 1], t));
        }
    }
}

/// Whether no two components share an id.
pub open spec fn distinct_ids(components: Seq<ComponentView>) -> bool {
    forall|i: int, j: int| 0 <= i < j < components.len() ==> #[trigger] components[i].0 != #[trigger] components[j].0
}

/// Defining a component keeps the ids distinct.
proof fn lemma_definition_keeps_ids_distinct(components: Seq<ComponentView>, c: ComponentView)
    requires
        distinct_ids(components),
    ensures
        distinct_ids(with_definition(components, c)),
{
    if exists|k: int| 0 <= k < components.len() && components[k].0 == c.0 {
        let k = choose|k: int| 0 <= k < components.len() && components[k].0 == c.0;
        assert(is_first_id(components, c.0, k));
        let i = id_position(components, c.0)->Some_0;
        assert(is_first_id(components, c.0, i));
        let after = components.update(i, c);
        assert forall|a: int, b: int| 0 <= a < b < after.len() implies #[trigger] after[a].0 != #[trigger] after[b].0 by {
            assert(after[a].0 == components[a].0);
            assert(after[b].0 == components[b].0);
        }
    } else {
        if id_position(components, c.0) is Some {
            let i = id_position(components, c.0)->Some_0;
            assert(is_first_id(components, c.0, i));
        }
        let after = components.push(c);
        assert forall|a: int, b: int| 0 <= a < b < after.len() implies #[trigger] after[a].0 != #[trigger] after[b].0 by {
            if b == components.len() {
                assert(after[a] == components[a]);
            } else {
                assert(after[a] == components[a] && after[b] == components[b]);
            }
        }
    }
}

/// Defining several components keeps the ids distinct.
proof fn lemma_definitions_keep_ids_distinct(components: Seq<ComponentView>, defs: Seq<ComponentView>)
    requires
        distinct_ids(components),
    ensures
        distinct_ids(with_definitions(components, defs)),
    decreases defs.len(),
{
    if defs.len() > 0 {
        lemma_definitions_keep_ids_distinct(components, defs.drop_last());
        lemma_definition_keeps_ids_distinct(with_definitions(components, defs.drop_last()), defs.last());
    }
}

/// A recovered surface lists each component id once: a redefinition
/// replaces the body where the id first stood.
pub proof fn law_components_are_listed_once(ops: Seq<AgentMessage>, t: Seq<char>)
    ensures
        distinct_ids(replayed(ops, t).components),
    decreases ops.len(),
{
    if ops.len() > 0 {
        law_components_are_listed_once(ops.drop_last(), t);
        let op = ops.last();
        let before = replayed(ops.drop_last(), t);
        if aims_at(op, t) {
            match op.payload {
                AgentPayload::UpdateComponents(m) => {
                    lemma_definitions_keep_ids_distinct(
                        before.components,
                        m.components@.map_values(|c: Component| component_view(c)),
                    );
                },
                _ => {},
            }
        }
    }
}

/// Whether `op` settles whether the surface `t` is deleted: a
/// `createSurface` or `updateComponents` puts it back, a `deleteSurface`
/// takes it down.
pub open spec fn settles(op: AgentMessage, t: Seq<char>) -> bool {
    &&& aims_at(op, t)
    &&& (op.payload is CreateSurface || op.payload is UpdateComponents || op.payload is DeleteSurface)
}

/// A recovered surface is deleted exactly when the last operation that
/// settles it was `deleteSurface`.
pub proof fn law_deleted_iff_the_last_word_was_delete(ops: Seq<AgentMessage>, t: Seq<char>)
    ensures
        replayed(ops, t).deleted <==> exists|i: int| {
            &&& 0 <= i < ops.len()
            &&& #[trigger] settles(ops[i], t)
            &&& ops[i].payload is DeleteSurface
            &&& forall|j: int| i < j < ops.len() ==> !settles(#[trigger] ops[j], t)
        },
    decreases ops.len(),
{
    if ops.len() > 0 {
        let prev = ops.drop_last();
        let n = ops.len() - 1;
        law_deleted_iff_the_last_word_was_delete(prev, t);
        let op = ops.last();
        assert(ops[n] == op);
        if settles(op, t) {
            if op.payload is DeleteSurface {
                assert(settles(ops[n], t));
            } else {
                assert forall|i: int| 0 <= i < n && #[trigger] settles(ops[i], t) && ops[i].payload is DeleteSurface
                    implies exists|j: int| i < j < ops.len() && settles(#[trigger] ops[j], t) by {
                    assert(settles(ops[n], t));
                }
            }
        } else {
            if exists|i: int| {
                &&& 0 <= i < prev.len()
                &&& #[trigger] settles(prev[i], t)
                &&& prev[i].payload is DeleteSurface
                &&& forall|j: int| i < j < prev.len() ==> !settles(#[trigger] prev[j], t)
            } {
                let i = choose|i: int| {
                    &&& 0 <= i < prev.len()
                    &&& #[trigger] settles(prev[i], t)
                    &&& prev[i].payload is DeleteSurface
                    &&& forall|j: int| i < j < prev.len() ==> !settles(#[trigger] prev[j], t)
                };
                assert(settles(ops[i], t));
                assert forall|j: int| i < j < ops.len() implies !settles(#[trigger] ops[j], t) by {
                    if j < n {
                        assert(ops[j] == prev[j]);
                    }
                }
            }
            if exists|i: int| {
                &&& 0 <= i < ops.len()
                &&& #[trigger] settles(ops[i], t)
                &&& ops[i].payload is DeleteSurface
                &&& forall|j: int| i < j < ops.len() ==> !settles(#[trigger] ops[j], t)
            } {
                let i = choose|i: int| {
                    &&& 0 <= i < ops.len()
                    &&& #[trigger] settles(ops[i], t)
                    &&& ops[i].payload is DeleteSurface
                    &&& forall|j: int| i < j < ops.len() ==> !settles(#[trigger] ops[j], t)
                };
                assert(i < n);
                assert(settles(prev[i], t));
                assert forall|j: int| i < j < prev.len() implies !settles(#[trigger] prev[j], t) by {
                    assert(ops[j] == prev[j]);
                }
            }
        }
    }
}

} // verus!
