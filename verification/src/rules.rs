//! Detection rule listings for the management API.
use vstd::prelude::*;

use crate::json::{deep_clone, json_get, opt_json, Json, JsonValue};

verus! {

/// The listing entry of a rule: its `id`, `title`, `description`, `enabled`
/// (the rule's value when it is a boolean, otherwise `true`), `level` and
/// `logsource`; `None` unless the rule is an object holding all six keys.
pub open spec fn rule_summary(rule: JsonValue) -> Option<Json> {
    if rule is Object && json_get(rule, "id"@) is Some && json_get(rule, "title"@) is Some && json_get(
        rule,
        "description"@,
    ) is Some && json_get(rule, "enabled"@) is Some && json_get(rule, "level"@) is Some && json_get(
        rule,
        "logsource"@,
    ) is Some {
        Some(
            Json::Object(
                seq![
                    ("id"@, json_get(rule, "id"@)->Some_0.json()),
                    ("title"@, json_get(rule, "title"@)->Some_0.json()),
                    ("description"@, json_get(rule, "description"@)->Some_0.json()),
                    ("enabled"@, Json::Bool(
                        match json_get(rule, "enabled"@) {
                            Some(JsonValue::Bool(b)) => b,
                            _ => true,
                        },
                    )),
                    ("level"@, json_get(rule, "level"@)->Some_0.json()),
                    ("logsource"@, json_get(rule, "logsource"@)->Some_0.json()),
                ],
            ),
        )
    } else {
        None
    }
}

/// The listing entries of `rules`, in order, skipping rules without one.
pub open spec fn rule_summaries(rules: Seq<JsonValue>) -> Seq<Json>
    decreases rules.len(),
{
    if rules.len() == 0 {
        Seq::empty()
    } else {
        let prefix = rule_summaries(rules.drop_last());
        match rule_summary(rules.last()) {
            Some(s) => prefix.push(s),
            None => prefix,
        }
    }
}

/// The listing of a serialized rule collection: the entries of its rules when
/// it is an array (see [`rule_summaries`]), otherwise nothing.
pub open spec fn listing(collection: JsonValue) -> Seq<Json> {
    match collection {
        JsonValue::Array(a) => rule_summaries(a@),
        _ => Seq::empty(),
    }
}

fn summarize(rule: &JsonValue) -> (r: Option<JsonValue>)
    ensures
        match r {
            Some(v) => rule_summary(*rule) == Some(v.json()),
            None => rule_summary(*rule) is None,
        },
{
    proof {
        reveal_strlit("id");
        reveal_strlit("title");
        reveal_strlit("description");
        reveal_strlit("enabled");
        reveal_strlit("level");
        reveal_strlit("logsource");
    }
    if let JsonValue::Object(_) = rule {
    } else {
        return None;
    }
    let k_id = String::from_str("id");
    let k_title = String::from_str("title");
    let k_description = String::from_str("description");
    let k_enabled = String::from_str("enabled");
    let k_level = String::from_str("level");
    let k_logsource = String::from_str("logsource");
    let id = match rule.get(&k_id) { Some(v) => v, None => return None };
    let title = match rule.get(&k_title) { Some(v) => v, None => return None };
    let description = match rule.get(&k_description) { Some(v) => v, None => return None };
    let enabled_value = match rule.get(&k_enabled) { Some(v) => v, None => return None };
    let level = match rule.get(&k_level) { Some(v) => v, None => return None };
    let logsource = match rule.get(&k_logsource) { Some(v) => v, None => return None };
    let enabled = match enabled_value.as_bool() {
        Some(b) => b,
        None => true,
    };
    assert(enabled == match json_get(*rule, "enabled"@) {
        Some(JsonValue::Bool(b)) => b,
        _ => true,
    });
    let e = vec![
        (k_id, deep_clone(id)),
        (k_title, deep_clone(title)),
        (k_description, deep_clone(description)),
        (k_enabled, JsonValue::Bool(enabled)),
        (k_level, deep_clone(level)),
        (k_logsource, deep_clone(logsource)),
    ];
    let v = JsonValue::Object(e);
    proof {
        let s = rule_summary(*rule)->Some_0->Object_0;
        let w = v.json()->Object_0;
        assert(w.len() == 6);
        assert(w[0] == s[0]);
        assert(w[1] == s[1]);
        assert(w[2] == s[2]);
        assert(JsonValue::Bool(enabled).json() == Json::Bool(enabled));
        assert(w[3].1 == e@[3].1.json());
        assert(w[3] == s[3]);
        assert(w[4] == s[4]);
        assert(w[5] == s[5]);
        assert(w =~= s);
    }
    Some(v)
}

/// The rule listing of a serialized rule collection (see [`listing`]).
pub fn list_rules(collection: &JsonValue) -> (r: Vec<JsonValue>)
    ensures
        r@.len() == listing(*collection).len(),
        forall|j: int| 0 <= j < r@.len() ==> (#[trigger] r@[j]).json() == listing(*collection)[j],
{
    let mut out: Vec<JsonValue> = Vec::new();
    match collection {
        JsonValue::Array(rules) => {
            let mut i: usize = 0;
            while i < rules.len()
                invariant
                    i <= rules@.len(),
                    out@.len() == rule_summaries(rules@.subrange(0, i as int)).len(),
                    forall|j: int| 0 <= j < out@.len() ==> (#[trigger] out@[j]).json() == rule_summaries(rules@.subrange(0, i as int))[j],
                decreases rules@.len() - i,
            {
                proof {
                    assert(rules@.subrange(0, i + 1).drop_last() =~= rules@.subrange(0, i as int));
                    assert(rules@.subrange(0, i + 1).last() == rules@[i as int]);
                }
                match summarize(&rules[i]) {
                    Some(s) => out.push(s),
                    None => {},
                }
                i = i + 1;
            }
            proof {
                assert(rules@.subrange(0, rules@.len() as int) =~= rules@);
            }
        },
        _ => {},
    }
    out
}

/// The member named `k` of an object view whose member names are distinct.
pub open spec fn member(j: Json, k: Seq<char>) -> Option<Json> {
    match j {
        Json::Object(e) => if exists|i: int| 0 <= i < e.len() && #[trigger] e[i].0 == k {
            Some(e[choose|i: int| 0 <= i < e.len() && #[trigger] e[i].0 == k].1)
        } else {
            None
        },
        _ => None,
    }
}

/// A rule has a listing entry exactly when it is an object with `id`, `title`,
/// `description`, `enabled`, `level` and `logsource`. The entry has six members:
/// `id`, `title`, `description`, `level` and `logsource` are the rule's own
/// values, and `enabled` is `false` only when the rule's `enabled` is `false`.
pub proof fn lemma_rule_entry(rule: JsonValue)
    ensures
        rule_summary(rule) is Some <==> (rule is Object && json_get(rule, "id"@) is Some && json_get(
            rule,
            "title"@,
        ) is Some && json_get(rule, "description"@) is Some && json_get(rule, "enabled"@) is Some
            && json_get(rule, "level"@) is Some && json_get(rule, "logsource"@) is Some),
        rule_summary(rule) matches Some(s) ==> {
            &&& s matches Json::Object(e) && e.len() == 6
            &&& member(s, "id"@) == opt_json(json_get(rule, "id"@))
            &&& member(s, "title"@) == opt_json(json_get(rule, "title"@))
            &&& member(s, "description"@) == opt_json(json_get(rule, "description"@))
            &&& member(s, "level"@) == opt_json(json_get(rule, "level"@))
            &&& member(s, "logsource"@) == opt_json(json_get(rule, "logsource"@))
            &&& member(s, "enabled"@) == Some(Json::Bool(json_get(rule, "enabled"@) != Some(JsonValue::Bool(false))))
        },
{
    reveal_strlit("id");
    reveal_strlit("title");
    reveal_strlit("description");
    reveal_strlit("enabled");
    reveal_strlit("level");
    reveal_strlit("logsource");
    if let Some(s) = rule_summary(rule) {
        let e = s->Object_0;
        let keys = seq!["id"@, "title"@, "description"@, "enabled"@, "level"@, "logsource"@];
        assert("title"@[0] != "level"@[0]);
        assert forall|a: int, b: int| 0 <= a < b < 6 implies keys[a] != keys[b] by {
            if keys[a] =~= keys[b] {
                assert(keys[a].len() == keys[b].len());
                assert(keys[a][0] == keys[b][0]);
            }
        }
        assert forall|i: int| 0 <= i < 6 implies #[trigger] e[i].0 == keys[i] by {}
        assert forall|i: int| 0 <= i < 6 implies member(s, keys[i]) == Some(e[i].1) by {
            assert(e[i].0 == keys[i]);
            let c = choose|c: int| 0 <= c < e.len() && #[trigger] e[c].0 == keys[i];
            assert(e[c].0 == keys[c]);
            assert(c == i);
        }
        assert(member(s, keys[0]) == Some(e[0].1));
        assert(member(s, keys[1]) == Some(e[1].1));
        assert(member(s, keys[2]) == Some(e[2].1));
        assert(member(s, keys[3]) == Some(e[3].1));
        assert(member(s, keys[4]) == Some(e[4].1));
        assert(member(s, keys[5]) == Some(e[5].1));
    }
}

#[verifier::rlimit(40)]
proof fn lemma_summaries(rules: Seq<JsonValue>)
    ensures
        rule_summaries(rules).len() <= rules.len(),
        forall|j: int|
            #![trigger rule_summaries(rules)[j]]
            0 <= j < rule_summaries(rules).len() ==> exists|i: int|
                0 <= i < rules.len() && rule_summary(#[trigger] rules[i]) == Some(
                    rule_summaries(rules)[j],
                ),
        forall|i: int|
            0 <= i < rules.len() && (#[trigger] rule_summary(rules[i])) is Some ==> exists|j: int|
                0 <= j < rule_summaries(rules).len() && Some(#[trigger] rule_summaries(rules)[j])
                    == rule_summary(rules[i]),
    decreases rules.len(),
{
    if rules.len() > 0 {
        let p = rules.drop_last();
        lemma_summaries(p);
        let prefix = rule_summaries(p);
        let all = rule_summaries(rules);
        assert forall|j: int| #![trigger all[j]] 0 <= j < all.len() implies exists|i: int|
            0 <= i < rules.len() && rule_summary(#[trigger] rules[i]) == Some(all[j]) by {
            if j < prefix.len() {
                assert(all[j] == prefix[j]);
                let i = choose|i: int| 0 <= i < p.len() && rule_summary(#[trigger] p[i]) == Some(prefix[j]);
                assert(rules[i] == p[i]);
            } else {
                assert(rule_summary(rules[rules.len() - 1]) == Some(all[j]));
            }
        }
        assert forall|i: int|
            0 <= i < rules.len() && (#[trigger] rule_summary(rules[i])) is Some implies exists|j: int|
                0 <= j < all.len() && Some(#[trigger] all[j]) == rule_summary(rules[i]) by {
            if i < p.len() {
                assert(rules[i] == p[i]);
                assert(rule_summary(p[i]) is Some);
                let j = choose|j: int| 0 <= j < prefix.len() && Some(#[trigger] prefix[j]) == rule_summary(p[i]);
                assert(all[j] == prefix[j]);
            } else {
                assert(all[all.len() - 1] == rule_summary(rules[i])->Some_0);
            }
        }
    }
}

/// The listing of a collection: nothing unless it is an array; otherwise every
/// entry is the entry of one of its rules, and every rule that has an entry is
/// listed.
pub proof fn lemma_listing(collection: JsonValue)
    ensures
        !(collection is Array) ==> listing(collection).len() == 0,
        collection matches JsonValue::Array(a) ==> {
            &&& listing(collection).len() <= a@.len()
            &&& forall|j: int|
                #![trigger listing(collection)[j]]
                0 <= j < listing(collection).len() ==> exists|i: int|
                    0 <= i < a@.len() && rule_summary(#[trigger] a@[i]) == Some(listing(collection)[j])
            &&& forall|i: int|
                0 <= i < a@.len() && (#[trigger] rule_summary(a@[i])) is Some ==> exists|j: int|
                    0 <= j < listing(collection).len() && Some(#[trigger] listing(collection)[j])
                        == rule_summary(a@[i])
        },
{
    if let JsonValue::Array(a) = collection {
        lemma_summaries(a@);
    }
}

/// The text `s` is one of the strings of `v`.
pub open spec fn listed(v: Seq<String>, s: Seq<char>) -> bool {
    exists|j: int| 0 <= j < v.len() && #[trigger] v[j]@ == s
}

/// Which detection rules are switched off, by rule id. Every rule is enabled
/// until it is disabled.
pub struct RuleSwitches {
    disabled: Vec<String>,
}

impl View for RuleSwitches {
    /// The ids of the disabled rules.
    type V = Set<Seq<char>>;

    closed spec fn view(&self) -> Set<Seq<char>> {
        Set::new(|s: Seq<char>| listed(self.disabled@, s))
    }
}

impl RuleSwitches {
    /// No rule switched off.
    pub fn new() -> (r: Self)
        ensures
            r@ == Set::<Seq<char>>::empty(),
    {
        let r = RuleSwitches { disabled: Vec::new() };
        assert(r@ =~= Set::<Seq<char>>::empty());
        r
    }

    /// Whether the rule `id` is enabled, that is, not switched off.
    pub fn is_enabled(&self, id: &str) -> (b: bool)
        ensures
            b == !self@.contains(id@),
    {
        let target = String::from_str(id);
        let mut i: usize = 0;
        while i < self.disabled.len()
            invariant
                i <= self.disabled@.len(),
                target@ == id@,
                forall|j: int| 0 <= j < i ==> (#[trigger] self.disabled@[j])@ != id@,
            decreases self.disabled@.len() - i,
        {
            if self.disabled[i] == target {
                assert(self.disabled@[i as int]@ == id@);
                return false;
            }
            i = i + 1;
        }
        true
    }

    /// Switches the rule `id` on or off; every other rule keeps its state.
    pub fn set_enabled(&mut self, id: &str, enabled: bool)
        ensures
            final(self)@ == (if enabled {
                old(self)@.remove(id@)
            } else {
                old(self)@.insert(id@)
            }),
    {
        let ghost before = self.disabled@;
        let ghost old_view = self@;
        if enabled {
            let target = String::from_str(id);
            let mut kept: Vec<String> = Vec::new();
            let mut i: usize = 0;
            while i < self.disabled.len()
                invariant
                    i <= before.len(),
                    self.disabled@ == before,
                    target@ == id@,
                    forall|x: Seq<char>|
                        #[trigger] listed(kept@, x) <==> (x != id@ && listed(before.take(i as int), x)),
                decreases before.len() - i,
            {
                let s = self.disabled[i].clone();
                let ghost k0 = kept@;
                let ghost p0 = before.take(i as int);
                let ghost p1 = before.take(i + 1);
                assert(p1 =~= p0.push(before[i as int]));
                if s != target {
                    kept.push(s);
                    assert(kept@ =~= k0.push(before[i as int]));
                    assert forall|x: Seq<char>|
                        #[trigger] listed(kept@, x) <==> (x != id@ && listed(p1, x)) by {
                        if listed(kept@, x) {
                            let j = choose|j: int| 0 <= j < kept@.len() && #[trigger] kept@[j]@ == x;
                            if j < k0.len() {
                                assert(k0[j]@ == x);
                                assert(listed(k0, x));
                                let m = choose|m: int| 0 <= m < p0.len() && #[trigger] p0[m]@ == x;
                                assert(p1[m]@ == x);
                            } else {
                                assert(p1[i as int]@ == x);
                            }
                        }
                        if x != id@ && listed(p1, x) {
                            let j = choose|j: int| 0 <= j < p1.len() && #[trigger] p1[j]@ == x;
                            if j < i {
                                assert(p0[j]@ == x);
                                assert(listed(p0, x));
                                assert(listed(k0, x));
                                let m = choose|m: int| 0 <= m < k0.len() && #[trigger] k0[m]@ == x;
                                assert(kept@[m]@ == x);
                            } else {
                                assert(kept@[k0.len() as int]@ == x);
                            }
                        }
                    }
                } else {
                    assert forall|x: Seq<char>|
                        #[trigger] listed(kept@, x) <==> (x != id@ && listed(p1, x)) by {
                        if listed(kept@, x) {
                            assert(listed(k0, x));
                            let m = choose|m: int| 0 <= m < p0.len() && #[trigger] p0[m]@ == x;
                            assert(p1[m]@ == x);
                        }
                        if x != id@ && listed(p1, x) {
                            let j = choose|j: int| 0 <= j < p1.len() && #[trigger] p1[j]@ == x;
                            assert(j != i);
                            assert(p0[j]@ == x);
                            assert(listed(p0, x));
                        }
                    }
                }
                i = i + 1;
            }
            self.disabled = kept;
            proof {
                assert(before.take(before.len() as int) =~= before);
                assert forall|x: Seq<char>| self@.contains(x) <==> old_view.remove(id@).contains(x) by {
                    assert(listed(kept@, x) <==> (x != id@ && listed(before.take(before.len() as int), x)));
                }
                assert(self@ =~= old_view.remove(id@));
            }
        } else {
            if self.is_enabled(id) {
                self.disabled.push(String::from_str(id));
                proof {
                    assert forall|x: Seq<char>| self@.contains(x) <==> old_view.insert(id@).contains(x) by {
                        if listed(before, x) {
                            let j = choose|j: int| 0 <= j < before.len() && #[trigger] before[j]@ == x;
                            assert(self.disabled@[j]@ == x);
                        }
                        if x == id@ {
                            assert(self.disabled@[before.len() as int]@ == x);
                        }
                        if listed(self.disabled@, x) {
                            let j = choose|j: int| 0 <= j < self.disabled@.len() && #[trigger] self.disabled@[j]@ == x;
                            if j < before.len() {
                                assert(before[j]@ == x);
                            }
                        }
                    }
                    assert(self@ =~= old_view.insert(id@));
                }
            } else {
                proof {
                    assert(old_view.insert(id@) =~= old_view);
                }
            }
        }
    }
}

} // verus!
