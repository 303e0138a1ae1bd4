//! What holds of the engine across operations, stated over the in-memory
//! store's model.
use vstd::prelude::*;
use crate::api::ApiErrorView;
use crate::document::DocView;
use crate::engine::has_version;
use crate::error::ErrorView;
use crate::json::is_json_object;
use crate::memory::{
    delete_environment_model, delete_model, environment_keys, get_model, get_version_model,
    in_environment, key_path, lemma_put_store_wf, lemma_sequential_max, list_versions_model,
    put_config_model, put_model, resolve_schema_model, state_wf, store_wf, KeyView, StoreView,
};
use crate::metadata::max_version_number;
use crate::resolution::schema_required;
use crate::version::{lemma_version_label_injective, version_label};

verus! {

/// In a well-formed history each version string stands at one index only.
pub proof fn lemma_version_unique(s: StoreView, k: KeyView, i: int, j: int)
    requires
        store_wf(s),
        s.contains_key(k),
        0 <= i < s[k].metadata.versions.len(),
        0 <= j < s[k].metadata.versions.len(),
        s[k].metadata.versions[i].version == s[k].metadata.versions[j].version,
    ensures
        i == j,
{
    assert(state_wf(s[k]));
    let vs = s[k].metadata.versions;
    assert(vs[i].version == version_label((i + 1) as nat));
    assert(vs[j].version == version_label((j + 1) as nat));
    lemma_version_label_injective((i + 1) as nat, (j + 1) as nat);
}

/// The version string `v1`.
pub proof fn lemma_first_label()
    ensures
        version_label(1) == seq!['v', '1'],
{
    reveal_with_fuel(crate::version::decimal, 2);
    assert(version_label(1) =~= seq!['v', '1']);
}

/// Creating a key that has no record, with object content and schema, and
/// then reading it gives back that content and schema at version `v1`.
pub proof fn law_create_then_get(
    s: StoreView,
    k: KeyView,
    content: serde_json::Value,
    schema: serde_json::Value,
    now: i64,
)
    requires
        store_wf(s),
        !s.contains_key(k),
        is_json_object(content),
        is_json_object(schema),
    ensures
        put_model(s, k, content, schema, None, now).1 == Ok::<Seq<char>, ErrorView>(
            version_label(1),
        ),
        get_model(put_model(s, k, content, schema, None, now).0, k) == Ok::<DocView, ErrorView>(
            DocView { content, schema, version: version_label(1) },
        ),
{
    lemma_first_label();
    let s2 = put_model(s, k, content, schema, None, now).0;
    assert(max_version_number(Seq::empty()) == 0);
    let vs = s2[k].metadata.versions;
    assert(vs.len() == 1);
    assert(vs[0].version == version_label(1));
    assert(has_version(vs, version_label(1)));
}

/// `put_chain(s, k, docs, now)`: the store after writing each document of
/// `docs` to `k` in turn, the first as a creation and each later one
/// expecting the version the one before it returned.
pub open spec fn put_chain(
    s: StoreView,
    k: KeyView,
    docs: Seq<(serde_json::Value, serde_json::Value)>,
    now: i64,
) -> StoreView
    decreases docs.len(),
{
    if docs.len() == 0 {
        s
    } else {
        let prev = put_chain(s, k, docs.drop_last(), now);
        let expected = if docs.len() == 1 {
            None
        } else {
            Some(version_label((docs.len() - 1) as nat))
        };
        put_model(prev, k, docs.last().0, docs.last().1, expected, now).0
    }
}

/// N sequential puts on a new key, each expecting the version the previous
/// one returned, all succeed and leave a history of exactly N records,
/// `v1` to `vN` in creation order.
pub proof fn law_sequential_puts(
    s: StoreView,
    k: KeyView,
    docs: Seq<(serde_json::Value, serde_json::Value)>,
    now: i64,
)
    requires
        store_wf(s),
        !s.contains_key(k),
        1 <= docs.len() <= u32::MAX,
        forall|i: int|
            0 <= i < docs.len() ==> is_json_object((#[trigger] docs[i]).0) && is_json_object(
                docs[i].1,
            ),
    ensures
        store_wf(put_chain(s, k, docs, now)),
        list_versions_model(put_chain(s, k, docs, now), k) matches Ok(vs) && vs.len()
            == docs.len() && forall|i: int|
            0 <= i < vs.len() ==> (#[trigger] vs[i]).version == version_label((i + 1) as nat),
    decreases docs.len(),
{
    let prev = put_chain(s, k, docs.drop_last(), now);
    let n = docs.len();
    assert(docs.last() == docs[n - 1]);
    if n == 1 {
        assert(prev == s);
        assert(max_version_number(Seq::empty()) == 0);
        lemma_put_store_wf(s, k, docs.last().0, docs.last().1, None, now);
    } else {
        assert forall|i: int| 0 <= i < docs.drop_last().len() implies is_json_object(
            (#[trigger] docs.drop_last()[i]).0,
        ) && is_json_object(docs.drop_last()[i].1) by {
            assert(docs.drop_last()[i] == docs[i]);
        }
        law_sequential_puts(s, k, docs.drop_last(), now);
        let expected = Some(version_label((n - 1) as nat));
        assert(state_wf(prev[k]));
        let vs = prev[k].metadata.versions;
        assert(vs.last() == vs[vs.len() - 1]);
        lemma_sequential_max(vs);
        lemma_put_store_wf(prev, k, docs.last().0, docs.last().1, expected, now);
        let next = put_chain(s, k, docs, now);
        assert(next == put_model(prev, k, docs.last().0, docs.last().1, expected, now).0);
        let ws = next[k].metadata.versions;
        assert forall|i: int| 0 <= i < ws.len() implies (#[trigger] ws[i]).version == version_label(
            (i + 1) as nat,
        ) by {
            assert(state_wf(next[k]));
        }
    }
}

/// A put expecting a version that is not current fails with a version
/// conflict and changes nothing.
pub proof fn law_stale_put_conflicts(
    s: StoreView,
    k: KeyView,
    content: serde_json::Value,
    schema: serde_json::Value,
    stale: Seq<char>,
    now: i64,
)
    requires
        s.contains_key(k) ==> stale != s[k].metadata.current_version,
    ensures
        put_model(s, k, content, schema, Some(stale), now).0 == s,
        put_model(s, k, content, schema, Some(stale), now).1 == Err::<Seq<char>, ErrorView>(
            ErrorView::VersionConflict {
                expected: stale,
                actual: if s.contains_key(k) {
                    s[k].metadata.current_version
                } else {
                    "none"@
                },
            },
        ),
{
}

/// A put without an expected version on a key that already has a record
/// fails because it exists, and changes nothing.
pub proof fn law_create_existing_fails(
    s: StoreView,
    k: KeyView,
    content: serde_json::Value,
    schema: serde_json::Value,
    now: i64,
)
    requires
        s.contains_key(k),
    ensures
        put_model(s, k, content, schema, None, now).0 == s,
        put_model(s, k, content, schema, None, now).1 == Err::<Seq<char>, ErrorView>(
            ErrorView::AlreadyExists(key_path(k)),
        ),
{
}

/// A successful put stores exactly the content and schema it was given
/// under the version it returns.
pub proof fn law_put_then_get_version(
    s: StoreView,
    k: KeyView,
    content: serde_json::Value,
    schema: serde_json::Value,
    expected: Option<Seq<char>>,
    now: i64,
)
    requires
        store_wf(s),
        put_model(s, k, content, schema, expected, now).1 is Ok,
    ensures
        get_version_model(
            put_model(s, k, content, schema, expected, now).0,
            k,
            put_model(s, k, content, schema, expected, now).1->Ok_0,
        ) == Ok::<DocView, ErrorView>(
            DocView {
                content,
                schema,
                version: put_model(s, k, content, schema, expected, now).1->Ok_0,
            },
        ),
{
    let s2 = put_model(s, k, content, schema, expected, now).0;
    let v = put_model(s, k, content, schema, expected, now).1->Ok_0;
    lemma_put_store_wf(s, k, content, schema, expected, now);
    let vs = s2[k].metadata.versions;
    let last = vs.len() - 1;
    assert(vs[last].version == v);
    assert(has_version(vs, v));
    let i = choose|i: int| 0 <= i < vs.len() && #[trigger] vs[i].version == v;
    lemma_version_unique(s2, k, i, last);
}

/// Reading a version that a key's history holds gives the same document
/// after any later put, on that key or another.
pub proof fn law_versions_immutable(
    s: StoreView,
    k: KeyView,
    v: Seq<char>,
    k2: KeyView,
    content: serde_json::Value,
    schema: serde_json::Value,
    expected: Option<Seq<char>>,
    now: i64,
)
    requires
        store_wf(s),
        s.contains_key(k),
        has_version(s[k].metadata.versions, v),
    ensures
        get_version_model(put_model(s, k2, content, schema, expected, now).0, k, v)
            == get_version_model(s, k, v),
{
    let s2 = put_model(s, k2, content, schema, expected, now).0;
    if put_model(s, k2, content, schema, expected, now).1 is Ok && k2 == k {
        lemma_put_store_wf(s, k2, content, schema, expected, now);
        let vs = s[k].metadata.versions;
        let ws = s2[k].metadata.versions;
        let i = choose|i: int| 0 <= i < vs.len() && #[trigger] vs[i].version == v;
        assert(ws[i] == vs[i]);
        assert(has_version(ws, v));
        let j = choose|j: int| 0 <= j < ws.len() && #[trigger] ws[j].version == v;
        lemma_version_unique(s2, k, i, j);
    }
}

/// After a key is deleted, reading it finds nothing and it no longer exists.
pub proof fn law_delete_then_get(s: StoreView, k: KeyView)
    ensures
        !delete_model(s, k).0.contains_key(k),
        get_model(delete_model(s, k).0, k) == Err::<DocView, ErrorView>(
            ErrorView::NotFound(key_path(k)),
        ),
{
}

/// Deleting an environment removes exactly the keys under it, returns how
/// many there were, and leaves every other key as it was.
pub proof fn law_delete_environment(s: StoreView, app: Seq<char>, env: Seq<char>)
    ensures
        forall|k: KeyView|
            #[trigger] delete_environment_model(s, app, env).0.contains_key(k) <==> s.contains_key(k)
                && !in_environment(k, app, env),
        forall|k: KeyView|
            #[trigger] delete_environment_model(s, app, env).0.contains_key(k) ==> delete_environment_model(
                s,
                app,
                env,
            ).0[k] == s[k],
        delete_environment_model(s, app, env).1 == environment_keys(s, app, env).len(),
{
}

/// A first write without a schema is rejected and changes nothing; a write
/// without a schema that expects an existing version reuses that version's
/// schema unchanged.
pub proof fn law_schema_resolution(
    s: StoreView,
    k: KeyView,
    content: serde_json::Value,
    expected: Seq<char>,
    now: i64,
)
    requires
        store_wf(s),
    ensures
        !s.contains_key(k) ==> put_config_model(s, k, content, None, None, now) == (
            s,
            Err::<Seq<char>, ApiErrorView>(ApiErrorView::BadRequest(schema_required())),
        ),
        s.contains_key(k) && has_version(s[k].metadata.versions, expected) ==> {
            let prior = get_version_model(s, k, expected)->Ok_0.schema;
            &&& resolve_schema_model(s, k, None, Some(expected)) == Ok::<
                serde_json::Value,
                ApiErrorView,
            >(prior)
            &&& put_config_model(s, k, content, None, Some(expected), now).1 is Ok
                ==> get_version_model(
                put_config_model(s, k, content, None, Some(expected), now).0,
                k,
                put_config_model(s, k, content, None, Some(expected), now).1->Ok_0,
            )->Ok_0.schema == prior
        },
{
    if s.contains_key(k) && has_version(s[k].metadata.versions, expected) {
        let prior = get_version_model(s, k, expected)->Ok_0.schema;
        if put_config_model(s, k, content, None, Some(expected), now).1 is Ok {
            law_put_then_get_version(s, k, content, prior, Some(expected), now);
        }
    }
}

} // verus!
