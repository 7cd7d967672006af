//! Resource instances extracted from a Terraform state file.

use vstd::prelude::*;
use vstd::string::*;

use crate::json::{entries_get, json_text, json_to_text, JsonValue};
use crate::text::{
    after_last, has_prefix, has_suffix, lemma_after_last_has_none, lemma_after_last_is_suffix, after_last_char, clone_opt_string, find_string, opt_view, strip_prefix,
    trim_end_all, trim_end_matches, trim_start_all, trim_start_matches, views, without_prefix,
};

verus! {

/// A state file, decoded: its list of resources (empty when the file has none).
pub struct StateFile {
    pub resources: Vec<StateResource>,
}

/// One resource block of a state file.
pub struct StateResource {
    /// "managed" or "data" (the decoder supplies `default_managed` when absent).
    pub mode: String,
    pub resource_type: String,
    pub name: String,
    /// Present for resources inside a module, e.g. "module.vpc".
    pub module: Option<String>,
    pub provider: String,
    pub instances: Vec<StateInstance>,
}

/// One instance of a resource, as the state file holds it.
pub struct StateInstance {
    pub index_key: Option<JsonValue>,
    pub attributes: Option<JsonValue>,
    /// Paths to sensitive values, e.g. `[["password"], ["config", 0, "secret"]]`.
    pub sensitive_attributes: Vec<JsonValue>,
}

/// A single resource instance extracted from state.
#[derive(Debug, Clone)]
pub struct ResourceInstance {
    /// "managed" or "data"
    pub mode: String,
    pub resource_type: String,
    pub name: String,
    /// Module address prefix, e.g. "module.vpc" (None for root module).
    pub module_prefix: Option<String>,
    /// Index key for count/for_each, e.g. "0" or "\"prod\"".
    pub index: Option<String>,
    /// Full provider source, e.g. "hashicorp/aws".
    pub provider_source: String,
    /// Local provider name, e.g. "aws".
    pub provider_local_name: String,
    /// Value of the `id` attribute (used in import blocks).
    pub resource_id: Option<String>,
    /// Top-level attribute keys that are marked sensitive in state, each once.
    pub sensitive_top_keys: Vec<String>,
    /// All attributes from state.
    pub attributes: JsonValue,
}

/// The Terraform address of `r`, e.g. `module.vpc.aws_instance.web[0]`:
/// `<type>.<name>`, behind `<module>.` when it has a module, followed by
/// `[<index>]` when it has an index.
pub open spec fn address_of(r: ResourceInstance) -> Seq<char> {
    let base = r.resource_type@ + "."@ + r.name@;
    let with_module = match r.module_prefix {
        Some(m) => m@ + "."@ + base,
        None => base,
    };
    match r.index {
        Some(idx) => with_module + "["@ + idx@ + "]"@,
        None => with_module,
    }
}

impl ResourceInstance {
    /// The Terraform address for this resource, e.g. `module.vpc.aws_instance.web[0]`
    pub fn address(&self) -> (res: String)
        ensures
            res@ == address_of(*self),
    {
        let mut base = self.resource_type.clone();
        base.append(".");
        base.append(self.name.as_str());
        let with_module = match &self.module_prefix {
            Some(m) => {
                let mut t = m.clone();
                t.append(".");
                t.append(base.as_str());
                t
            },
            None => base,
        };
        match &self.index {
            Some(idx) => {
                let mut t = with_module;
                t.append("[");
                t.append(idx.as_str());
                t.append("]");
                t
            },
            None => with_module,
        }
    }
}

/// The mode of a resource whose state entry names none.
pub fn default_managed() -> (res: String)
    ensures
        res@ == "managed"@,
{
    "managed".to_owned()
}

// ── provider names ──────────────────────────────────────────────────────────

/// The provider source named by a raw provider string such as
/// `provider["registry.terraform.io/hashicorp/aws"]`: the text between the
/// quotes, without a leading Terraform or OpenTofu registry host.
pub open spec fn provider_source_of(raw: Seq<char>) -> Seq<char> {
    let inner = trim_end_all(trim_start_all(raw, "provider[\""@), "\"]"@);
    match without_prefix(inner, "registry.terraform.io/"@) {
        Some(rest) => rest,
        None => match without_prefix(inner, "registry.opentofu.org/"@) {
            Some(rest) => rest,
            None => inner,
        },
    }
}

/// The local provider name: what follows the last `/` of the source.
pub open spec fn provider_local_name_of(raw: Seq<char>) -> Seq<char> {
    after_last(provider_source_of(raw), '/')
}

/// The local provider name holds no `/` and ends the provider source.
pub proof fn lemma_local_name_ends_source(raw: Seq<char>)
    ensures
        !provider_local_name_of(raw).contains('/'),
        has_suffix(provider_source_of(raw), provider_local_name_of(raw)),
{
    lemma_after_last_has_none(provider_source_of(raw), '/');
    lemma_after_last_is_suffix(provider_source_of(raw), '/');
}

/// `s` in the wrapper of a raw provider string: `provider["` + s + `"]`.
pub open spec fn wrapped_provider(s: Seq<char>) -> Seq<char> {
    "provider[\""@ + s + "\"]"@
}

/// Unwrapping `provider["s"]` gives back `s`, when `s` holds no `[` and no `"`.
proof fn lemma_unwrap(s: Seq<char>)
    requires
        !s.contains('['),
        !s.contains('"'),
    ensures
        trim_end_all(trim_start_all(wrapped_provider(s), "provider[\""@), "\"]"@) == s,
{
    let p = "provider[\""@;
    let q = "\"]"@;
    reveal_strlit("provider[\"");
    reveal_strlit("\"]");
    assert(p.len() == 10);
    assert(p[8] == '[');
    assert(q.len() == 2);
    assert(q[0] == '"' && q[1] == ']');
    let w = wrapped_provider(s);
    let sq = s + q;
    assert(w =~= p + sq);
    assert(w.take(10) =~= p);
    assert(w.skip(10) =~= sq);
    if has_prefix(sq, p) {
        assert(sq.take(10)[8] == '[');
        assert(sq[8] == '[');
        if s.len() > 8 {
            assert(s[8] == sq[8]);
            assert(s.contains('['));
        } else if s.len() == 8 {
            assert(sq[8] == q[0]);
        } else {
            assert(sq.len() < 10);
        }
    }
    assert(trim_start_all(sq, p) == sq);
    assert(trim_start_all(w, p) == trim_start_all(sq, p));
    assert(sq.skip(sq.len() - 2) =~= q);
    assert(sq.take(sq.len() - 2) =~= s);
    if has_suffix(s, q) {
        assert(s.skip(s.len() - 2)[0] == '"');
        assert(s[s.len() - 2] == '"');
        assert(s.contains('"'));
    }
    assert(trim_end_all(s, q) == s);
}

/// A provider whose quoted text starts with neither registry host keeps that
/// text whole as its source.
pub proof fn lemma_other_host_kept(s: Seq<char>)
    requires
        !s.contains('['),
        !s.contains('"'),
        !has_prefix(s, "registry.terraform.io/"@),
        !has_prefix(s, "registry.opentofu.org/"@),
    ensures
        provider_source_of(wrapped_provider(s)) == s,
{
    lemma_unwrap(s);
}

/// A provider from either registry has its host dropped: the source is the
/// text after it.
pub proof fn lemma_registry_host_dropped(r: Seq<char>)
    requires
        !r.contains('['),
        !r.contains('"'),
    ensures
        provider_source_of(wrapped_provider("registry.terraform.io/"@ + r)) == r,
        provider_source_of(wrapped_provider("registry.opentofu.org/"@ + r)) == r,
{
    let t = "registry.terraform.io/"@;
    let o = "registry.opentofu.org/"@;
    reveal_strlit("registry.terraform.io/");
    reveal_strlit("registry.opentofu.org/");
    assert(t.len() == 22 && o.len() == 22);
    assert(!t.contains('[') && !t.contains('"'));
    assert(!o.contains('[') && !o.contains('"'));
    assert forall|i: int| 0 <= i < (t + r).len() implies (t + r)[i] != '[' && (t + r)[i] != '"' by {
        if i >= t.len() {
            assert((t + r)[i] == r[i - t.len()]);
        }
    }
    assert forall|i: int| 0 <= i < (o + r).len() implies (o + r)[i] != '[' && (o + r)[i] != '"' by {
        if i >= o.len() {
            assert((o + r)[i] == r[i - o.len()]);
        }
    }
    lemma_unwrap(t + r);
    lemma_unwrap(o + r);
    assert((t + r).take(22) =~= t);
    assert((t + r).skip(22) =~= r);
    assert((o + r).take(22) =~= o);
    assert((o + r).skip(22) =~= r);
    assert(t[9] != o[9]);
    assert((o + r).take(22)[9] == o[9]);
}

/// Parse `provider["registry.terraform.io/hashicorp/aws"]`
/// or    `provider["registry.opentofu.org/hashicorp/aws"]`
/// → source = "hashicorp/aws", local_name = "aws"
pub fn parse_provider(raw: &str) -> (res: (String, String))
    ensures
        res.0@ == provider_source_of(raw@),
        res.1@ == provider_local_name_of(raw@),
{
    let open = "provider[\"";
    let close = "\"]";
    let terraform = "registry.terraform.io/";
    let opentofu = "registry.opentofu.org/";
    let inner = trim_end_matches(trim_start_matches(raw, open), close);
    let source = match strip_prefix(inner, terraform) {
        Some(rest) => rest,
        None => match strip_prefix(inner, opentofu) {
            Some(rest) => rest,
            None => inner,
        },
    };
    let local_name = after_last_char(source, '/');
    (source.to_owned(), local_name.to_owned())
}

// ── instance fields ─────────────────────────────────────────────────────────

/// How an index key is written in an address: a string in double quotes
/// (as it stands, nothing escaped), any other value as its JSON text.
pub open spec fn index_text(key: JsonValue) -> Seq<char> {
    match key {
        JsonValue::Str(s) => "\""@ + s@ + "\""@,
        other => json_text(other),
    }
}

/// The `id` attribute, when it is a non-empty string.
pub open spec fn id_of(attrs: JsonValue) -> Option<Seq<char>> {
    match attrs.spec_get("id"@) {
        Some(JsonValue::Str(s)) => if s@.len() > 0 {
            Some(s@)
        } else {
            None
        },
        _ => None,
    }
}

/// The top-level key a sensitive path names: its first segment, when the path
/// is an array that begins with a string.
pub open spec fn top_key(path: JsonValue) -> Option<Seq<char>> {
    match path {
        JsonValue::Array(segments) => if segments@.len() > 0 {
            match segments@[0] {
                JsonValue::Str(s) => Some(s@),
                _ => None,
            }
        } else {
            None
        },
        _ => None,
    }
}

/// The top-level keys named by a list of sensitive paths.
pub open spec fn sensitive_keys(paths: Seq<JsonValue>) -> Set<Seq<char>> {
    Set::new(|k: Seq<char>| exists|i: int| 0 <= i < paths.len() && top_key(paths[i]) == Some(k))
}

/// `out` is the instance that extraction makes of `inst`, a member of `res`.
pub open spec fn instance_matches(out: ResourceInstance, res: StateResource, inst: StateInstance) -> bool {
    &&& out.mode@ == res.mode@
    &&& out.resource_type@ == res.resource_type@
    &&& out.name@ == res.name@
    &&& opt_view(out.module_prefix) == opt_view(res.module)
    &&& match inst.index_key {
        Some(k) => out.index matches Some(i) && i@ == index_text(k),
        None => out.index is None,
    }
    &&& out.provider_source@ == provider_source_of(res.provider@)
    &&& out.provider_local_name@ == provider_local_name_of(res.provider@)
    &&& match inst.attributes {
        Some(a) => out.attributes == a,
        None => out.attributes matches JsonValue::Object(e) && e@.len() == 0,
    }
    &&& opt_view(out.resource_id) == id_of(out.attributes)
    &&& views(out.sensitive_top_keys@).no_duplicates()
    &&& views(out.sensitive_top_keys@).to_set() == sensitive_keys(inst.sensitive_attributes@)
}

/// Every instance of every resource, resources in order and each resource's
/// instances in order, each paired with its resource.
pub open spec fn state_pairs(rs: Seq<StateResource>) -> Seq<(StateResource, StateInstance)>
    decreases rs.len(),
{
    if rs.len() == 0 {
        Seq::empty()
    } else {
        state_pairs(rs.drop_last()) + paired(rs.last(), rs.last().instances@)
    }
}

/// Each of `insts` paired with `res`.
pub open spec fn paired(res: StateResource, insts: Seq<StateInstance>) -> Seq<
    (StateResource, StateInstance),
> {
    insts.map_values(|inst: StateInstance| (res, inst))
}

/// How many instances the resources `rs` hold in all.
pub open spec fn instance_total(rs: Seq<StateResource>) -> nat
    decreases rs.len(),
{
    if rs.len() == 0 {
        0
    } else {
        instance_total(rs.drop_last()) + rs.last().instances@.len()
    }
}

/// Every instance of every resource, whatever its mode, is extracted: the
/// extraction lists as many instances as the resources hold in all, and each
/// instance of each resource stands in it, paired with its own resource.
pub proof fn lemma_every_instance_extracted(rs: Seq<StateResource>)
    ensures
        state_pairs(rs).len() == instance_total(rs),
        forall|i: int, j: int|
            0 <= i < rs.len() && 0 <= j < rs[i].instances@.len() ==> state_pairs(rs).contains(
                (rs[i], #[trigger] rs[i].instances@[j]),
            ),
    decreases rs.len(),
{
    if rs.len() > 0 {
        let init = rs.drop_last();
        lemma_every_instance_extracted(init);
        let before = state_pairs(init);
        let last = rs.last();
        let tail = paired(last, last.instances@);
        assert(state_pairs(rs) == before + tail);
        assert forall|i: int, j: int|
            0 <= i < rs.len() && 0 <= j < rs[i].instances@.len() implies state_pairs(rs).contains(
                (rs[i], #[trigger] rs[i].instances@[j]),
            ) by {
            if i < rs.len() - 1 {
                assert(init[i] == rs[i]);
                assert(init[i].instances@[j] == rs[i].instances@[j]);
                assert(before.contains((init[i], init[i].instances@[j])));
                let k = choose|k: int| 0 <= k < before.len() && before[k] == (init[i], init[i].instances@[j]);
                assert(state_pairs(rs)[k] == before[k]);
            } else {
                let k = before.len() + j;
                assert(state_pairs(rs)[k] == tail[j]);
                assert(tail[j] == (last, last.instances@[j]));
                assert(rs[i] == last);
            }
        }
    }
}

/// The value under `key` in `entries` is that of the first entry with that
/// key, wherever it stands.
pub proof fn lemma_first_entry_found(entries: Seq<(String, JsonValue)>, key: Seq<char>, p: int)
    requires
        0 <= p < entries.len(),
        entries[p].0@ == key,
        forall|q: int| 0 <= q < p ==> (#[trigger] entries[q]).0@ != key,
    ensures
        entries_get(entries, key) == Some(entries[p].1),
    decreases p,
{
    if p > 0 {
        let rest = entries.drop_first();
        assert forall|q: int| 0 <= q < p - 1 implies (#[trigger] rest[q]).0@ != key by {
            assert(rest[q] == entries[q + 1]);
        }
        assert(rest[p - 1] == entries[p]);
        lemma_first_entry_found(rest, key, p - 1);
        assert(entries[0].0@ != key);
    }
}

/// No entry of `entries` has key `key`: nothing is found under it.
pub proof fn lemma_absent_entry(entries: Seq<(String, JsonValue)>, key: Seq<char>)
    requires
        forall|q: int| 0 <= q < entries.len() ==> (#[trigger] entries[q]).0@ != key,
    ensures
        entries_get(entries, key) is None,
    decreases entries.len(),
{
    if entries.len() > 0 {
        let rest = entries.drop_first();
        assert forall|q: int| 0 <= q < rest.len() implies (#[trigger] rest[q]).0@ != key by {
            assert(rest[q] == entries[q + 1]);
        }
        assert(entries[0].0@ != key);
        lemma_absent_entry(rest, key);
    }
}

/// The id of an object's attributes does not depend on where its `id` entry
/// stands: when the first entry with key `id`, at any position, holds a
/// non-empty string, that string is the id; when it holds anything else, or
/// no entry has key `id`, there is no id.
pub proof fn lemma_id_wherever_it_stands(entries: Vec<(String, JsonValue)>, p: int)
    ensures
        0 <= p < entries@.len() && entries@[p].0@ == "id"@ && (forall|q: int|
            0 <= q < p ==> (#[trigger] entries@[q]).0@ != "id"@) ==> id_of(JsonValue::Object(entries))
            == match entries@[p].1 {
            JsonValue::Str(s) => if s@.len() > 0 {
                Some(s@)
            } else {
                None
            },
            _ => None,
        },
        (forall|q: int| 0 <= q < entries@.len() ==> (#[trigger] entries@[q]).0@ != "id"@) ==> id_of(
            JsonValue::Object(entries),
        ) is None,
{
    if 0 <= p < entries@.len() && entries@[p].0@ == "id"@ && (forall|q: int|
        0 <= q < p ==> (#[trigger] entries@[q]).0@ != "id"@) {
        lemma_first_entry_found(entries@, "id"@, p);
    }
    if forall|q: int| 0 <= q < entries@.len() ==> (#[trigger] entries@[q]).0@ != "id"@ {
        lemma_absent_entry(entries@, "id"@);
    }
}

/// Every address holds `<type>.<name>`: alone for a root resource without an
/// index, behind `<module>.` inside a module, before `[<index>]` with an index.
pub proof fn lemma_address_holds_type_and_name(r: ResourceInstance)
    ensures
        r.module_prefix is None ==> (r.index is None ==> address_of(r) == r.resource_type@ + "."@
            + r.name@),
        r.module_prefix matches Some(m) ==> (r.index is None ==> address_of(r) == m@ + "."@ + (
        r.resource_type@ + "."@ + r.name@)),
        r.index matches Some(i) ==> (r.module_prefix is None ==> address_of(r) == r.resource_type@
            + "."@ + r.name@ + "["@ + i@ + "]"@),
        r.module_prefix matches Some(m) ==> (r.index matches Some(i) ==> address_of(r) == m@ + "."@
            + (r.resource_type@ + "."@ + r.name@) + "["@ + i@ + "]"@),
{
}

/// The `id` attribute of `attrs`, when it is a non-empty string.
pub fn extract_id(attrs: &JsonValue) -> (res: Option<String>)
    ensures
        opt_view(res) == id_of(*attrs),
{
    let key = "id";
    match attrs.get(key) {
        Some(v) => match v.as_str() {
            Some(s) => if s.unicode_len() > 0 {
                Some(s.to_owned())
            } else {
                None
            },
            None => None,
        },
        None => None,
    }
}

/// The first segment of a sensitive path, when the path is an array that
/// begins with a string.
fn first_string_segment(path: &JsonValue) -> (res: Option<&String>)
    ensures
        match res {
            Some(s) => top_key(*path) == Some(s@),
            None => top_key(*path) is None,
        },
{
    match path {
        JsonValue::Array(segments) => if segments.len() > 0 {
            match &segments[0] {
                JsonValue::Str(s) => Some(s),
                _ => None,
            }
        } else {
            None
        },
        _ => None,
    }
}

/// Collect top-level sensitive field names from the sensitive_attributes array.
/// Each entry is an array-of-path-segments; only the first segment is taken,
/// when it's a string (direct top-level key).
pub fn extract_sensitive_top_keys(paths: &Vec<JsonValue>) -> (keys: Vec<String>)
    ensures
        views(keys@).no_duplicates(),
        views(keys@).to_set() == sensitive_keys(paths@),
{
    let mut keys: Vec<String> = Vec::new();
    let mut i: usize = 0;
    while i < paths.len()
        invariant
            i <= paths@.len(),
            views(keys@).no_duplicates(),
            forall|k: Seq<char>|
                views(keys@).contains(k) <==> exists|j: int|
                    0 <= j < i && top_key(paths@[j]) == Some(k),
        decreases paths@.len() - i,
    {
        let ghost before = views(keys@);
        match first_string_segment(&paths[i]) {
            Some(top) => {
                match find_string(&keys, top.as_str()) {
                    Some(idx) => {
                        assert(views(keys@)[idx as int] == top@);
                    },
                    None => {
                        keys.push(top.clone());
                        assert(views(keys@) =~= before.push(top@));
                        assert(views(keys@)[before.len() as int] == top@);
                    },
                }
                assert(views(keys@).contains(top@));
                assert forall|k: Seq<char>| views(keys@).contains(k) implies before.contains(k)
                    || k == top@ by {
                    let m = choose|m: int| 0 <= m < views(keys@).len() && views(keys@)[m] == k;
                    if m < before.len() {
                        assert(before[m] == k);
                    }
                }
                assert forall|k: Seq<char>| before.contains(k) implies views(keys@).contains(k) by {
                    let m = choose|m: int| 0 <= m < before.len() && before[m] == k;
                    assert(views(keys@)[m] == k);
                }
            },
            None => {},
        }
        assert forall|k: Seq<char>|
            views(keys@).contains(k) <==> exists|j: int|
                0 <= j < i + 1 && top_key(paths@[j]) == Some(k) by {
            if views(keys@).contains(k) && !before.contains(k) {
                assert(top_key(paths@[i as int]) == Some(k));
            }
            if exists|j: int| 0 <= j < i + 1 && top_key(paths@[j]) == Some(k) {
                let j = choose|j: int| 0 <= j < i + 1 && top_key(paths@[j]) == Some(k);
                if j < i {
                    assert(before.contains(k));
                }
            }
        }
        i = i + 1;
    }
    assert(views(keys@).to_set() =~= sensitive_keys(paths@));
    keys
}

/// The resource instance made of `inst`, a member of `res`.
fn make_instance(res: &StateResource, inst: StateInstance) -> (out: ResourceInstance)
    ensures
        instance_matches(out, *res, inst),
{
    let StateInstance { index_key, attributes, sensitive_attributes } = inst;
    let (provider_source, provider_local_name) = parse_provider(res.provider.as_str());
    let index = match &index_key {
        Some(JsonValue::Str(s)) => {
            let mut t = "\"".to_owned();
            t.append(s.as_str());
            t.append("\"");
            Some(t)
        },
        Some(other) => Some(json_to_text(other)),
        None => None,
    };
    let sensitive_top_keys = extract_sensitive_top_keys(&sensitive_attributes);
    let attrs = match attributes {
        Some(a) => a,
        None => JsonValue::Object(Vec::new()),
    };
    let resource_id = extract_id(&attrs);
    ResourceInstance {
        mode: res.mode.clone(),
        resource_type: res.resource_type.clone(),
        name: res.name.clone(),
        module_prefix: clone_opt_string(&res.module),
        index,
        provider_source,
        provider_local_name,
        resource_id,
        sensitive_top_keys,
        attributes: attrs,
    }
}

/// Every instance of every resource of the state file, in order.
pub fn parse_state(state: StateFile) -> (out: Vec<ResourceInstance>)
    ensures
        out@.len() == state_pairs(state.resources@).len(),
        forall|k: int|
            0 <= k < out@.len() ==> instance_matches(
                #[trigger] out@[k],
                state_pairs(state.resources@)[k].0,
                state_pairs(state.resources@)[k].1,
            ),
{
    let ghost rs = state.resources@;
    let mut resources = state.resources;
    let mut out: Vec<ResourceInstance> = Vec::new();
    let ghost mut i: int = 0;
    assert(rs.skip(0) =~= rs);
    assert(rs.take(0) =~= Seq::<StateResource>::empty());
    while resources.len() > 0
        invariant
            0 <= i <= rs.len(),
            resources@ == rs.skip(i),
            out@.len() == state_pairs(rs.take(i)).len(),
            forall|k: int|
                0 <= k < out@.len() ==> instance_matches(
                    #[trigger] out@[k],
                    state_pairs(rs.take(i))[k].0,
                    state_pairs(rs.take(i))[k].1,
                ),
        decreases resources@.len(),
    {
        let mut res = resources.remove(0);
        let ghost r0 = res;
        assert(r0 == rs[i]);
        let ghost prefix = state_pairs(rs.take(i));
        let ghost mut j: int = 0;
        assert(r0.instances@.skip(0) =~= r0.instances@);
        assert(paired(r0, r0.instances@.take(0)) =~= Seq::<(StateResource, StateInstance)>::empty());
        assert(prefix + paired(r0, r0.instances@.take(0)) =~= prefix);
        while res.instances.len() > 0
            invariant
                0 <= j <= r0.instances@.len(),
                res.instances@ == r0.instances@.skip(j),
                res.mode == r0.mode,
                res.resource_type == r0.resource_type,
                res.name == r0.name,
                res.module == r0.module,
                res.provider == r0.provider,
                out@.len() == (prefix + paired(r0, r0.instances@.take(j))).len(),
                forall|k: int|
                    0 <= k < out@.len() ==> instance_matches(
                        #[trigger] out@[k],
                        (prefix + paired(r0, r0.instances@.take(j)))[k].0,
                        (prefix + paired(r0, r0.instances@.take(j)))[k].1,
                    ),
            decreases res.instances@.len(),
        {
            let inst = res.instances.remove(0);
            let ghost inst0 = inst;
            assert(inst0 == r0.instances@[j]);
            let item = make_instance(&res, inst);
            let ghost old_out = out@;
            out.push(item);
            assert(r0.instances@.take(j + 1)[j] == inst0);
            assert(paired(r0, r0.instances@.take(j + 1)) =~= paired(r0, r0.instances@.take(j)).push((r0, inst0)));
            assert(prefix + paired(r0, r0.instances@.take(j + 1)) =~= (prefix
                + paired(r0, r0.instances@.take(j))).push((r0, inst0)));
            assert(res.instances@ =~= r0.instances@.skip(j + 1));
            proof {
                j = j + 1;
            }
        }
        assert(r0.instances@.take(j) =~= r0.instances@);
        assert(rs.take(i + 1).drop_last() =~= rs.take(i));
        assert(state_pairs(rs.take(i + 1)) == prefix + paired(r0, r0.instances@));
        assert(resources@ =~= rs.skip(i + 1));
        proof {
            i = i + 1;
        }
    }
    assert(rs.take(i) =~= rs);
    out
}

} // verus!
