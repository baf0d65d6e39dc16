//! Detection: what an event is matched against, and the detection finding
//! made for each Sigma rule an event matches.
use vstd::prelude::*;

use crate::assoc::{assoc_get, assoc_insert, assoc_lookup};
use crate::event::Event;
use crate::rules::RuleSwitches;
use crate::json::{
    clone_entries, deep_clone, is_writable, json_get, json_text, lemma_json_get_view, opt_json,
    written, JsonValue,
};

verus! {

/// The correlation identifier of an event: the text of `metadata.uid` in its
/// data when that is a string, otherwise the event's own id.
pub open spec fn correlation_of(event: Event) -> Seq<char> {
    match json_get(event.data, "metadata"@) {
        Some(m) => match json_text(json_get(m, "uid"@)) {
            Some(s) => s,
            None => event.id@,
        },
        None => event.id@,
    }
}

/// The correlation identifier of an event (see [`correlation_of`]).
pub fn correlation_uid(event: &Event) -> (s: String)
    ensures
        s@ == correlation_of(*event),
{
    proof {
        reveal_strlit("metadata");
        reveal_strlit("uid");
    }
    let metadata_key = String::from_str("metadata");
    let uid_key = String::from_str("uid");
    match event.data.get(&metadata_key) {
        Some(m) => match m.get(&uid_key) {
            Some(JsonValue::Str(s)) => s.clone(),
            _ => event.id.clone(),
        },
        None => event.id.clone(),
    }
}

/// The raw text of an OCSF event, which rules are matched against instead of
/// the normalized data: present when the metadata has an `ocsf` entry and the
/// data's `raw_data` is a string.
pub open spec fn raw_data_of(event: Event) -> Option<Seq<char>> {
    if assoc_get(event.metadata@, "ocsf"@) is Some {
        json_text(json_get(event.data, "raw_data"@))
    } else {
        None
    }
}

/// The raw text rules are matched against, if the event carries one (see
/// [`raw_data_of`]). When it does not parse as JSON, rules see the event's data.
pub fn raw_data_to_match(event: &Event) -> (r: Option<String>)
    ensures
        match r {
            Some(s) => raw_data_of(*event) == Some(s@),
            None => raw_data_of(*event) is None,
        },
{
    let ocsf_key = String::from_str("ocsf");
    let raw_key = String::from_str("raw_data");
    match assoc_lookup(&event.metadata, &ocsf_key) {
        Some(_) => match event.data.get(&raw_key) {
            Some(JsonValue::Str(s)) => Some(s.clone()),
            _ => None,
        },
        None => None,
    }
}

/// The product object of a finding: `{"vendor_name": "StrIEM", "product_name": "StrIEM"}`.
pub open spec fn is_striem_product(p: JsonValue) -> bool {
    &&& p matches JsonValue::Object(e) && e@.len() == 2
    &&& json_text(json_get(p, "vendor_name"@)) == Some("StrIEM"@)
    &&& json_text(json_get(p, "product_name"@)) == Some("StrIEM"@)
}

/// A finding (as a Sigma rule's detection finding is written) can receive the
/// event's identifiers: it and its `metadata`, if present, are objects or null.
pub open spec fn is_annotatable(finding: JsonValue) -> bool {
    &&& is_writable(finding)
    &&& (json_get(finding, "metadata"@) matches Some(m) ==> is_writable(m))
}

/// `after` is the finding `before` annotated for `event`: an object whose keys
/// other than `metadata` are unchanged, with a `metadata` object holding `uid`
/// (the event's id), `correlation_uid` (see [`correlation_of`]) and `product`
/// (see [`is_striem_product`]), every other metadata key keeping its value.
pub open spec fn annotated(event: Event, before: JsonValue, after: JsonValue) -> bool {
    &&& after is Object
    &&& forall|k: Seq<char>| k != "metadata"@ ==> #[trigger] json_get(after, k) == json_get(before, k)
    &&& json_get(after, "metadata"@) matches Some(m) && {
        &&& m is Object
        &&& json_text(json_get(m, "uid"@)) == Some(event.id@)
        &&& json_text(json_get(m, "correlation_uid"@)) == Some(correlation_of(event))
        &&& json_get(m, "product"@) matches Some(p) && is_striem_product(p)
        &&& forall|k: Seq<char>|
            k != "uid"@ && k != "correlation_uid"@ && k != "product"@ ==> #[trigger] opt_json(
                json_get(m, k),
            ) == opt_json(
                match json_get(before, "metadata"@) {
                    Some(bm) => json_get(bm, k),
                    None => None,
                },
            )
    }
}

fn striem_product() -> (p: JsonValue)
    ensures
        is_striem_product(p),
{
    proof {
        reveal_strlit("vendor_name");
        reveal_strlit("product_name");
    }
    let e = vec![
        (String::from_str("vendor_name"), JsonValue::Str(String::from_str("StrIEM"))),
        (String::from_str("product_name"), JsonValue::Str(String::from_str("StrIEM"))),
    ];
    proof {
        assert(!("product_name"@ =~= "vendor_name"@));
        assert(crate::assoc::find_key(e@, "vendor_name"@) == 0);
        assert(crate::assoc::find_from(e@, "product_name"@, 1) == 1);
        assert(crate::assoc::find_key(e@, "product_name"@) == 1);
    }
    JsonValue::Object(e)
}

/// Checks [`is_annotatable`].
pub fn can_annotate(finding: &JsonValue) -> (b: bool)
    ensures
        b == is_annotatable(*finding),
{
    let key = String::from_str("metadata");
    match finding {
        JsonValue::Null => true,
        JsonValue::Object(_) => match finding.get(&key) {
            Some(JsonValue::Null) => true,
            Some(JsonValue::Object(_)) => true,
            Some(_) => false,
            None => true,
        },
        _ => false,
    }
}

/// The detection finding event for `event` and one matched rule's finding
/// data `finding`, identified by `id`: its data is `finding` annotated with the
/// event's identifiers (see [`annotated`]); its metadata is the event's with
/// `ocsf` and `striem` set to `true`.
pub fn detection_finding(event: &Event, finding: JsonValue, id: String) -> (r: Event)
    requires
        is_annotatable(finding),
    ensures
        r.id == id,
        annotated(*event, finding, r.data),
        assoc_get(r.metadata@, "ocsf"@) == Some(JsonValue::Bool(true)),
        assoc_get(r.metadata@, "striem"@) == Some(JsonValue::Bool(true)),
        forall|k: Seq<char>|
            k != "ocsf"@ && k != "striem"@ ==> #[trigger] opt_json(assoc_get(r.metadata@, k))
                == opt_json(assoc_get(event.metadata@, k)),
{
    proof {
        reveal_strlit("metadata");
        reveal_strlit("uid");
        reveal_strlit("correlation_uid");
        reveal_strlit("product");
        reveal_strlit("ocsf");
        reveal_strlit("striem");
    }
    let correlation = correlation_uid(event);
    let metadata_key = String::from_str("metadata");
    let mut meta = match finding.get(&metadata_key) {
        Some(m) => deep_clone(m),
        None => JsonValue::Null,
    };
    let ghost m0 = meta;
    meta.set(String::from_str("uid"), JsonValue::Str(event.id.clone()));
    let ghost m1 = meta;
    meta.set(String::from_str("correlation_uid"), JsonValue::Str(correlation));
    let ghost m2 = meta;
    let product = striem_product();
    meta.set(String::from_str("product"), product);
    let ghost m3 = meta;
    let ghost before = finding;
    let mut data = finding;
    data.set(metadata_key, meta);
    proof {
        assert(!("uid"@ =~= "correlation_uid"@));
        assert(!("uid"@ =~= "product"@));
        assert(!("correlation_uid"@ =~= "product"@));
        assert forall|k: Seq<char>|
            k != "uid"@ && k != "correlation_uid"@ && k != "product"@ implies #[trigger] opt_json(
                json_get(m3, k),
            ) == opt_json(
                match json_get(before, "metadata"@) {
                    Some(bm) => json_get(bm, k),
                    None => None,
                },
            ) by {
            assert(json_get(m3, k) == json_get(m0, k));
            if let Some(bm) = json_get(before, "metadata"@) {
                lemma_json_get_view(m0, bm, k);
            }
        }
    }
    let mut metadata = clone_entries(&event.metadata);
    let ghost md0 = metadata@;
    assoc_insert(&mut metadata, String::from_str("ocsf"), JsonValue::Bool(true));
    assoc_insert(&mut metadata, String::from_str("striem"), JsonValue::Bool(true));
    proof {
        assert(!("ocsf"@ =~= "striem"@));
        assert forall|k: Seq<char>| k != "ocsf"@ && k != "striem"@ implies #[trigger] opt_json(
            assoc_get(metadata@, k),
        ) == opt_json(assoc_get(event.metadata@, k)) by {
            assert(opt_json(assoc_get(md0, k)) == opt_json(assoc_get(event.metadata@, k)));
        }
    }
    Event { id, data, metadata }
}

/// The correlation identifier of an event is the text of its data's
/// `metadata.uid` when that is a string, and otherwise (no `metadata`, no `uid`,
/// or a `uid` that is not a string) exactly the event's own id. A finding
/// annotated for the event carries it as `metadata.correlation_uid`, and the
/// event's id as `metadata.uid`.
pub proof fn lemma_correlation(event: Event, finding: JsonValue, after: JsonValue)
    ensures
        json_get(event.data, "metadata"@) matches Some(m) ==> (json_get(m, "uid"@) matches Some(
            JsonValue::Str(u),
        ) ==> correlation_of(event) == u@),
        !(json_get(event.data, "metadata"@) matches Some(m) && json_get(m, "uid"@) is Some && json_get(
            m,
            "uid"@,
        )->Some_0 is Str) ==> correlation_of(event) == event.id@,
        annotated(event, finding, after) ==> (json_get(after, "metadata"@) matches Some(m) && {
            &&& (json_get(m, "correlation_uid"@) matches Some(JsonValue::Str(c)) && c@ == correlation_of(
                event,
            ))
            &&& (json_get(m, "uid"@) matches Some(JsonValue::Str(u)) && u@ == event.id@)
        }),
{
}

/// `r` is the detection finding for `event` made from one rule's finding data
/// `finding` and identified by `id` (what [`detection_finding`] ensures).
pub open spec fn is_finding_for(event: Event, finding: JsonValue, id: Seq<char>, r: Event) -> bool {
    &&& r.id@ == id
    &&& annotated(event, finding, r.data)
    &&& assoc_get(r.metadata@, "ocsf"@) == Some(JsonValue::Bool(true))
    &&& assoc_get(r.metadata@, "striem"@) == Some(JsonValue::Bool(true))
    &&& forall|k: Seq<char>|
        k != "ocsf"@ && k != "striem"@ ==> #[trigger] opt_json(assoc_get(r.metadata@, k))
            == opt_json(assoc_get(event.metadata@, k))
}

/// The positions, in order, of the matched rules that make a finding: those
/// whose rule is present (its finding data is given) and not disabled.
pub open spec fn kept_matches(matched: Seq<(String, Option<JsonValue>)>, disabled: Set<Seq<char>>) -> Seq<int>
    decreases matched.len(),
{
    if matched.len() == 0 {
        Seq::empty()
    } else {
        let prefix = kept_matches(matched.drop_last(), disabled);
        if matched.last().1 is Some && !disabled.contains(matched.last().0@) {
            prefix.push(matched.len() - 1)
        } else {
            prefix
        }
    }
}

proof fn lemma_kept_matches_complete(matched: Seq<(String, Option<JsonValue>)>, disabled: Set<Seq<char>>)
    ensures
        forall|a: int, b: int|
            0 <= a < b < kept_matches(matched, disabled).len() ==> #[trigger] kept_matches(matched, disabled)[a]
                < #[trigger] kept_matches(matched, disabled)[b],
        forall|i: int|
            0 <= i < matched.len() && (#[trigger] matched[i]).1 is Some && !disabled.contains(matched[i].0@)
                ==> exists|k: int|
                0 <= k < kept_matches(matched, disabled).len() && #[trigger] kept_matches(matched, disabled)[k] == i,
    decreases matched.len(),
{
    if matched.len() > 0 {
        let p = matched.drop_last();
        lemma_kept_matches_complete(p, disabled);
        lemma_kept_matches_bounds(p, disabled);
        let before = kept_matches(p, disabled);
        let all = kept_matches(matched, disabled);
        assert forall|i: int|
            0 <= i < matched.len() && (#[trigger] matched[i]).1 is Some && !disabled.contains(matched[i].0@)
                implies exists|k: int| 0 <= k < all.len() && #[trigger] all[k] == i by {
            if i < p.len() {
                assert(p[i] == matched[i]);
                let k = choose|k: int| 0 <= k < before.len() && #[trigger] before[k] == i;
                assert(all[k] == before[k]);
            } else {
                assert(all[all.len() - 1] == i);
            }
        }
    }
}

/// The matched rules that make findings are exactly those whose rule is present
/// and not disabled, each once and in match order.
pub proof fn lemma_kept_matches(matched: Seq<(String, Option<JsonValue>)>, disabled: Set<Seq<char>>)
    ensures
        forall|k: int|
            0 <= k < kept_matches(matched, disabled).len() ==> 0 <= #[trigger] kept_matches(matched, disabled)[k]
                < matched.len() && matched[kept_matches(matched, disabled)[k]].1 is Some
                && !disabled.contains(matched[kept_matches(matched, disabled)[k]].0@),
        forall|a: int, b: int|
            0 <= a < b < kept_matches(matched, disabled).len() ==> #[trigger] kept_matches(matched, disabled)[a]
                < #[trigger] kept_matches(matched, disabled)[b],
        forall|i: int|
            0 <= i < matched.len() && (#[trigger] matched[i]).1 is Some && !disabled.contains(matched[i].0@)
                ==> exists|k: int|
                0 <= k < kept_matches(matched, disabled).len() && #[trigger] kept_matches(matched, disabled)[k] == i,
{
    lemma_kept_matches_bounds(matched, disabled);
    lemma_kept_matches_complete(matched, disabled);
}

/// A finding made for an event names StrIEM as its product (`vendor_name` and
/// `product_name` both `StrIEM`), and its metadata marks it as OCSF and as
/// StrIEM's own (`ocsf` and `striem` both `true`).
pub proof fn lemma_finding_marks(event: Event, finding: JsonValue, id: Seq<char>, r: Event)
    requires
        is_finding_for(event, finding, id, r),
    ensures
        r.id@ == id,
        json_get(r.data, "metadata"@) matches Some(m) && json_get(m, "product"@) matches Some(p) && {
            &&& (json_get(p, "vendor_name"@) matches Some(JsonValue::Str(v)) && v@ == "StrIEM"@)
            &&& (json_get(p, "product_name"@) matches Some(JsonValue::Str(n)) && n@ == "StrIEM"@)
        },
        assoc_get(r.metadata@, "ocsf"@) == Some(JsonValue::Bool(true)),
        assoc_get(r.metadata@, "striem"@) == Some(JsonValue::Bool(true)),
{
}

proof fn lemma_kept_matches_bounds(matched: Seq<(String, Option<JsonValue>)>, disabled: Set<Seq<char>>)
    ensures
        forall|k: int|
            0 <= k < kept_matches(matched, disabled).len() ==> 0 <= #[trigger] kept_matches(
                matched,
                disabled,
            )[k] < matched.len() && matched[kept_matches(matched, disabled)[k]].1 is Some
                && !disabled.contains(matched[kept_matches(matched, disabled)[k]].0@),
    decreases matched.len(),
{
    if matched.len() > 0 {
        lemma_kept_matches_bounds(matched.drop_last(), disabled);
    }
}

/// The findings an event yields: for each matched rule, in match order, that
/// is present and enabled, the detection finding made from its finding data
/// and identified by the id given at its position.
pub fn detection_findings(
    event: &Event,
    matched: Vec<(String, Option<JsonValue>)>,
    switches: &RuleSwitches,
    ids: Vec<String>,
) -> (r: Vec<Event>)
    requires
        ids@.len() == matched@.len(),
        forall|j: int|
            0 <= j < matched@.len() && !switches@.contains(matched@[j].0@) ==> (#[trigger] matched@[j].1 matches Some(
                f,
            ) ==> is_annotatable(f)),
    ensures
        r@.len() == kept_matches(matched@, switches@).len(),
        forall|k: int|
            0 <= k < r@.len() ==> {
                let j = kept_matches(matched@, switches@)[k];
                is_finding_for(*event, matched@[j].1->Some_0, ids@[j]@, #[trigger] r@[k])
            },
{
    let ghost all = matched@;
    let ghost all_ids = ids@;
    let ghost sw = switches@;
    let n = matched.len();
    let mut rest = matched;
    let mut rest_ids = ids;
    let mut out: Vec<Event> = Vec::new();
    let mut i: usize = 0;
    while i < n
        invariant
            n == all.len(),
            all_ids.len() == n,
            sw == switches@,
            i <= n,
            rest@ == all.subrange(i as int, n as int),
            rest_ids@ == all_ids.subrange(i as int, n as int),
            forall|j: int|
                0 <= j < all.len() && !sw.contains(all[j].0@) ==> (#[trigger] all[j].1 matches Some(f)
                    ==> is_annotatable(f)),
            out@.len() == kept_matches(all.take(i as int), sw).len(),
            forall|k: int|
                0 <= k < out@.len() ==> {
                    let j = kept_matches(all.take(i as int), sw)[k];
                    is_finding_for(*event, all[j].1->Some_0, all_ids[j]@, #[trigger] out@[k])
                },
        decreases n - i,
    {
        let ghost before = kept_matches(all.take(i as int), sw);
        proof {
            lemma_kept_matches_bounds(all.take(i as int), sw);
            assert(all.take(i + 1).drop_last() =~= all.take(i as int));
        }
        let (rule_id, finding) = rest.remove(0);
        let id = rest_ids.remove(0);
        assert(rule_id == all[i as int].0 && finding == all[i as int].1);
        assert(id == all_ids[i as int]);
        if switches.is_enabled(rule_id.as_str()) {
            match finding {
                Some(f) => {
                    let e = detection_finding(event, f, id);
                    out.push(e);
                },
                None => {},
            }
        }
        proof {
            let after = kept_matches(all.take(i + 1), sw);
            assert forall|k: int| 0 <= k < out@.len() implies {
                let j = after[k];
                is_finding_for(*event, all[j].1->Some_0, all_ids[j]@, #[trigger] out@[k])
            } by {
                if k < before.len() {
                    assert(after[k] == before[k]);
                }
            }
        }
        i = i + 1;
    }
    proof {
        assert(all.take(n as int) =~= all);
    }
    out
}

} // verus!
