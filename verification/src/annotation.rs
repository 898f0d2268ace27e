//! The post-rollout annotation stage of an evaluation recipe: its `[annotation]`
//! block, checked where it is read so a bad recipe is refused at load time,
//! and the sealed traces the stage may annotate.

use crate::admission::pipeline::has_operation;
use crate::json::{field, object_of, text_value, text_view, unsigned_value, count_view, entries_of, member, JsonValue, JsonView};
use crate::model_catalog::{entry_for, first_key_index, position_of};
use crate::text::{concat, concat3, decimal, same_text, texts_of, trim, trim_str, u64_to_string};
use vstd::prelude::*;

verus! {

/// A TOML value as a recipe file holds it. A float is kept as its IEEE 754
/// bits; table entries keep the table's order.
#[derive(Debug)]
pub enum TomlValue {
    Text(String),
    Integer(i64),
    Float(u64),
    Boolean(bool),
    Datetime(String),
    Array(Vec<TomlValue>),
    Table(Vec<(String, TomlValue)>),
}

/// The options an `[annotation]` block may set.
pub open spec fn spec_keys() -> Seq<Seq<char>> {
    seq!["enabled"@, "annotators"@, "repeats"@, "max_cost_usd"@, "label"@, "throughput"@]
}

/// The options an annotator entry may set.
pub open spec fn annotator_keys() -> Seq<Seq<char>> {
    seq!["id"@, "annotator_id"@, "repeats"@, "model"@, "rubric_id"@, "reasoning_effort"@, "runner_kind"@]
}

/// The annotator classes a throughput cap may name.
pub open spec fn throughput_classes() -> Seq<Seq<char>> {
    seq!["deterministic"@, "paid"@]
}

/// The most repeats an annotator may run per trace.
pub const MAX_REPEATS: u32 = 5;

/// The most annotators a stage may list.
pub const MAX_ANNOTATORS: usize = 16;

fn spec_key_list() -> (r: Vec<String>)
    ensures
        texts_of(r@) == spec_keys(),
{
    let r = vec![
        String::from_str("enabled"),
        String::from_str("annotators"),
        String::from_str("repeats"),
        String::from_str("max_cost_usd"),
        String::from_str("label"),
        String::from_str("throughput"),
    ];
    assert(texts_of(r@) =~= spec_keys());
    r
}

fn annotator_key_list() -> (r: Vec<String>)
    ensures
        texts_of(r@) == annotator_keys(),
{
    let r = vec![
        String::from_str("id"),
        String::from_str("annotator_id"),
        String::from_str("repeats"),
        String::from_str("model"),
        String::from_str("rubric_id"),
        String::from_str("reasoning_effort"),
        String::from_str("runner_kind"),
    ];
    assert(texts_of(r@) =~= annotator_keys());
    r
}

/// The first key of a table that is not among `admitted`.
pub open spec fn first_unknown(entries: Seq<(String, TomlValue)>, admitted: Seq<Seq<char>>) -> Option<Seq<char>>
    decreases entries.len(),
{
    if entries.len() == 0 {
        None
    } else {
        match first_unknown(entries.drop_last(), admitted) {
            Some(k) => Some(k),
            None => if admitted.contains(entries.last().0@) { None } else { Some(entries.last().0@) },
        }
    }
}

fn find_unknown(entries: &Vec<(String, TomlValue)>, admitted: &Vec<String>) -> (r: Option<String>)
    ensures
        match r {
            Some(k) => first_unknown(entries@, texts_of(admitted@)) == Some(k@),
            None => first_unknown(entries@, texts_of(admitted@)) is None,
        },
{
    let mut i: usize = 0;
    while i < entries.len()
        invariant
            i <= entries@.len(),
            first_unknown(entries@.take(i as int), texts_of(admitted@)) is None,
        decreases entries@.len() - i,
    {
        assert(entries@.take(i + 1).drop_last() =~= entries@.take(i as int));
        if !has_operation(admitted.as_slice(), entries[i].0.as_str()) {
            proof {
                lemma_first_unknown_prefix(entries@, texts_of(admitted@), i + 1);
            }
            return Some(entries[i].0.clone());
        }
        i = i + 1;
    }
    assert(entries@.take(i as int) =~= entries@);
    None
}

proof fn lemma_first_unknown_prefix(entries: Seq<(String, TomlValue)>, admitted: Seq<Seq<char>>, n: int)
    requires
        0 <= n <= entries.len(),
        first_unknown(entries.take(n), admitted) is Some,
    ensures
        first_unknown(entries, admitted) == first_unknown(entries.take(n), admitted),
    decreases entries.len() - n,
{
    if n < entries.len() {
        assert(entries.take(n + 1).drop_last() =~= entries.take(n));
        lemma_first_unknown_prefix(entries, admitted, n + 1);
    } else {
        assert(entries.take(n) =~= entries);
    }
}

/// One annotator of a stage, and how often it runs per trace.
pub struct AnnotatorSpec {
    pub annotator_id: String,
    pub repeats: u32,
    pub model: Option<String>,
    pub rubric_id: Option<String>,
    pub reasoning_effort: Option<String>,
    pub runner_kind: Option<String>,
}

/// An annotator as plain values.
pub struct AnnotatorView {
    pub annotator_id: Seq<char>,
    pub repeats: u32,
    pub model: Option<Seq<char>>,
    pub rubric_id: Option<Seq<char>>,
    pub reasoning_effort: Option<Seq<char>>,
    pub runner_kind: Option<Seq<char>>,
}

pub open spec fn opt_text(o: Option<String>) -> Option<Seq<char>> {
    match o {
        Some(s) => Some(s@),
        None => None,
    }
}

impl View for AnnotatorSpec {
    type V = AnnotatorView;

    open spec fn view(&self) -> AnnotatorView {
        AnnotatorView {
            annotator_id: self.annotator_id@,
            repeats: self.repeats,
            model: opt_text(self.model),
            rubric_id: opt_text(self.rubric_id),
            reasoning_effort: opt_text(self.reasoning_effort),
            runner_kind: opt_text(self.runner_kind),
        }
    }
}

pub open spec fn annotator_views(s: Seq<AnnotatorSpec>) -> Seq<AnnotatorView> {
    Seq::new(s.len(), |i: int| s[i]@)
}

/// The prefix of every refusal about a recipe.
pub open spec fn about(recipe_id: Seq<char>) -> Seq<char> {
    "recipe `"@ + recipe_id + "` "@
}

fn about_exec(recipe_id: &str) -> (r: String)
    ensures
        r@ == about(recipe_id@),
{
    concat3("recipe `", recipe_id, "` ")
}

fn refusal(recipe_id: &str, rest: &str) -> (r: String)
    ensures
        r@ == about(recipe_id@) + rest@,
{
    let mut r = about_exec(recipe_id);
    r.append(rest);
    r
}

/// A repeat count: an integer from 1 to 5.
pub open spec fn repeats_value(v: TomlValue) -> Option<u32> {
    match v {
        TomlValue::Integer(n) => if 1 <= n <= 5 { Some(n as u32) } else { None },
        _ => None,
    }
}

fn repeats_of(v: &TomlValue) -> (r: Option<u32>)
    ensures
        r == repeats_value(*v),
{
    match v {
        TomlValue::Integer(n) => if 1 <= *n && *n <= 5 {
            Some(*n as u32)
        } else {
            None
        },
        _ => None,
    }
}

/// An optional annotator setting: absent, or a non-blank text, trimmed.
pub open spec fn optional_setting(entry: Seq<(String, TomlValue)>, key: Seq<char>) -> Result<Option<Seq<char>>, ()> {
    match entry_for(entry, key) {
        None => Ok(None),
        Some(TomlValue::Text(t)) => if trim(t@).len() > 0 { Ok(Some(trim(t@))) } else { Err(()) },
        Some(_) => Err(()),
    }
}

fn optional_setting_of(entry: &Vec<(String, TomlValue)>, key: &str) -> (r: Result<Option<String>, ()>)
    ensures
        match r {
            Ok(Some(s)) => optional_setting(entry@, key@) == Ok::<Option<Seq<char>>, ()>(Some(s@)),
            Ok(None) => optional_setting(entry@, key@) == Ok::<Option<Seq<char>>, ()>(None),
            Err(_) => optional_setting(entry@, key@) is Err,
        },
{
    match position_of(entry, key) {
        None => Ok(None),
        Some(i) => match &entry[i].1 {
            TomlValue::Text(t) => {
                let v = trim_str(t.as_str());
                if v.as_str().is_empty() {
                    Err(())
                } else {
                    Ok(Some(v))
                }
            },
            _ => Err(()),
        },
    }
}

/// The id an annotator table names: `id`, else `annotator_id`, as trimmed
/// non-blank text.
pub open spec fn table_annotator_id(entry: Seq<(String, TomlValue)>) -> Option<Seq<char>> {
    let chosen = if entry_for(entry, "id"@) is Some {
        entry_for(entry, "id"@)
    } else {
        entry_for(entry, "annotator_id"@)
    };
    match chosen {
        Some(TomlValue::Text(t)) => if trim(t@).len() > 0 { Some(trim(t@)) } else { None },
        _ => None,
    }
}

/// The settings an annotator's table gives, as the first failing one or all.
pub open spec fn table_settings(entry: Seq<(String, TomlValue)>) -> Result<
    (Option<Seq<char>>, Option<Seq<char>>, Option<Seq<char>>, Option<Seq<char>>),
    Seq<char>,
> {
    match optional_setting(entry, "model"@) {
        Err(_) => Err("annotation.annotators.model must be a non-empty string"@),
        Ok(model) => match optional_setting(entry, "rubric_id"@) {
            Err(_) => Err("annotation.annotators.rubric_id must be a non-empty string"@),
            Ok(rubric) => match optional_setting(entry, "reasoning_effort"@) {
                Err(_) => Err("annotation.annotators.reasoning_effort must be a non-empty string"@),
                Ok(effort) => match optional_setting(entry, "runner_kind"@) {
                    Err(_) => Err("annotation.annotators.runner_kind must be a non-empty string"@),
                    Ok(runner) => Ok((model, rubric, effort, runner)),
                },
            },
        },
    }
}

/// One listed annotator: a bare id runs the default repeats with no further
/// settings; a table names its id, may override repeats, and may set a model,
/// rubric, reasoning effort and runner kind.
#[verifier::opaque]
pub open spec fn annotator_of(recipe_id: Seq<char>, item: TomlValue, default_repeats: u32) -> Result<AnnotatorView, Seq<char>> {
    let r = about(recipe_id);
    match item {
        TomlValue::Text(id) => Ok(AnnotatorView {
            annotator_id: trim(id@),
            repeats: default_repeats,
            model: None,
            rubric_id: None,
            reasoning_effort: None,
            runner_kind: None,
        }),
        TomlValue::Table(entry) => table_annotator_of(recipe_id, entry@, default_repeats),
        _ => Err(r + "annotation.annotators entries must be ids or tables"@),
    }
}

/// An annotator given as a table.
pub open spec fn table_annotator_of(recipe_id: Seq<char>, entry: Seq<(String, TomlValue)>, default_repeats: u32) -> Result<AnnotatorView, Seq<char>> {
    let r = about(recipe_id);
            match first_unknown(entry, annotator_keys()) {
                Some(k) => Err(r + "annotation.annotators."@ + k + " is not an admitted option"@),
                None => match table_annotator_id(entry) {
                    None => Err(r + "annotation.annotators entries need an id"@),
                    Some(id) => {
                        let repeats = match entry_for(entry, "repeats"@) {
                            None => Some(default_repeats),
                            Some(v) => repeats_value(v),
                        };
                        match repeats {
                            None => Err(r + "annotation.annotators.repeats must be 1..=5"@),
                            Some(n) => match table_settings(entry) {
                                Err(tail) => Err(r + tail),
                                Ok((model, rubric, effort, runner)) => Ok(AnnotatorView {
                                    annotator_id: id,
                                    repeats: n,
                                    model,
                                    rubric_id: rubric,
                                    reasoning_effort: effort,
                                    runner_kind: runner,
                                }),
                            },
                        }
                    },
                },
            }
}

fn table_id(entry: &Vec<(String, TomlValue)>) -> (r: Option<String>)
    ensures
        match r {
            Some(v) => table_annotator_id(entry@) == Some(v@),
            None => table_annotator_id(entry@) is None,
        },
{
    let chosen = match position_of(entry, "id") {
        Some(i) => Some(i),
        None => position_of(entry, "annotator_id"),
    };
    match chosen {
        Some(i) => match &entry[i].1 {
            TomlValue::Text(t) => {
                let v = trim_str(t.as_str());
                if v.as_str().is_empty() {
                    None
                } else {
                    Some(v)
                }
            },
            _ => None,
        },
        None => None,
    }
}

pub open spec fn settings_view(
    s: (Option<String>, Option<String>, Option<String>, Option<String>),
) -> (Option<Seq<char>>, Option<Seq<char>>, Option<Seq<char>>, Option<Seq<char>>) {
    (opt_text(s.0), opt_text(s.1), opt_text(s.2), opt_text(s.3))
}

fn table_settings_of(entry: &Vec<(String, TomlValue)>) -> (r: Result<
    (Option<String>, Option<String>, Option<String>, Option<String>),
    &'static str,
>)
    ensures
        match r {
            Ok(v) => table_settings(entry@) == Ok::<_, Seq<char>>(settings_view(v)),
            Err(tail) => table_settings(entry@) == Err::<(Option<Seq<char>>, Option<Seq<char>>, Option<Seq<char>>, Option<Seq<char>>), Seq<char>>(tail@),
        },
{
    let model = match optional_setting_of(entry, "model") {
        Ok(v) => v,
        Err(_) => return Err("annotation.annotators.model must be a non-empty string"),
    };
    let rubric_id = match optional_setting_of(entry, "rubric_id") {
        Ok(v) => v,
        Err(_) => return Err("annotation.annotators.rubric_id must be a non-empty string"),
    };
    let reasoning_effort = match optional_setting_of(entry, "reasoning_effort") {
        Ok(v) => v,
        Err(_) => return Err("annotation.annotators.reasoning_effort must be a non-empty string"),
    };
    let runner_kind = match optional_setting_of(entry, "runner_kind") {
        Ok(v) => v,
        Err(_) => return Err("annotation.annotators.runner_kind must be a non-empty string"),
    };
    Ok((model, rubric_id, reasoning_effort, runner_kind))
}

fn table_annotator_from(recipe_id: &str, entry: &Vec<(String, TomlValue)>, default_repeats: u32) -> (r: Result<AnnotatorSpec, String>)
    ensures
        match r {
            Ok(a) => table_annotator_of(recipe_id@, entry@, default_repeats) == Ok::<AnnotatorView, Seq<char>>(a@),
            Err(m) => table_annotator_of(recipe_id@, entry@, default_repeats) == Err::<AnnotatorView, Seq<char>>(m@),
        },
{
    let admitted = annotator_key_list();
    if let Some(k) = find_unknown(entry, &admitted) {
        let mut m = refusal(recipe_id, "annotation.annotators.");
        m.append(k.as_str());
        m.append(" is not an admitted option");
        return Err(m);
    }
    let id = match table_id(entry) {
        Some(v) => v,
        None => return Err(refusal(recipe_id, "annotation.annotators entries need an id")),
    };
    let repeats = match position_of(entry, "repeats") {
        None => Some(default_repeats),
        Some(i) => repeats_of(&entry[i].1),
    };
    let repeats = match repeats {
        Some(n) => n,
        None => return Err(refusal(recipe_id, "annotation.annotators.repeats must be 1..=5")),
    };
    match table_settings_of(entry) {
        Ok((model, rubric_id, reasoning_effort, runner_kind)) => Ok(
            AnnotatorSpec { annotator_id: id, repeats, model, rubric_id, reasoning_effort, runner_kind },
        ),
        Err(tail) => Err(refusal(recipe_id, tail)),
    }
}

fn annotator_from(recipe_id: &str, item: &TomlValue, default_repeats: u32) -> (r: Result<AnnotatorSpec, String>)
    ensures
        match r {
            Ok(a) => annotator_of(recipe_id@, *item, default_repeats) == Ok::<AnnotatorView, Seq<char>>(a@),
            Err(m) => annotator_of(recipe_id@, *item, default_repeats) == Err::<AnnotatorView, Seq<char>>(m@),
        },
{
    reveal(annotator_of);
    match item {
        TomlValue::Text(id) => Ok(AnnotatorSpec {
            annotator_id: trim_str(id.as_str()),
            repeats: default_repeats,
            model: None,
            rubric_id: None,
            reasoning_effort: None,
            runner_kind: None,
        }),
        TomlValue::Table(entry) => table_annotator_from(recipe_id, entry, default_repeats),
        _ => Err(refusal(recipe_id, "annotation.annotators entries must be ids or tables")),
    }
}

pub open spec fn annotator_ids(list: Seq<AnnotatorView>) -> Seq<Seq<char>> {
    Seq::new(list.len(), |i: int| list[i].annotator_id)
}

/// The listed annotators, in order: each must parse, have a non-empty id, and
/// not repeat an earlier id.
#[verifier::opaque]
pub open spec fn annotators_of(recipe_id: Seq<char>, items: Seq<TomlValue>, default_repeats: u32) -> Result<Seq<AnnotatorView>, Seq<char>>
    decreases items.len(),
{
    if items.len() == 0 {
        Ok(Seq::empty())
    } else {
        match annotators_of(recipe_id, items.drop_last(), default_repeats) {
            Err(e) => Err(e),
            Ok(list) => match annotator_of(recipe_id, items.last(), default_repeats) {
                Err(e) => Err(e),
                Ok(a) => if a.annotator_id.len() == 0 {
                    Err(about(recipe_id) + "annotation.annotators contains an empty id"@)
                } else if annotator_ids(list).contains(a.annotator_id) {
                    Err(about(recipe_id) + "annotation.annotators lists `"@ + a.annotator_id + "` twice"@)
                } else {
                    Ok(list.push(a))
                },
            },
        }
    }
}

fn annotators_from(recipe_id: &str, items: &Vec<TomlValue>, default_repeats: u32) -> (r: Result<Vec<AnnotatorSpec>, String>)
    ensures
        match r {
            Ok(list) => annotators_of(recipe_id@, items@, default_repeats) == Ok::<Seq<AnnotatorView>, Seq<char>>(annotator_views(list@)),
            Err(m) => annotators_of(recipe_id@, items@, default_repeats) == Err::<Seq<AnnotatorView>, Seq<char>>(m@),
        },
{
    reveal(annotators_of);
    let mut list: Vec<AnnotatorSpec> = Vec::new();
    let mut ids: Vec<String> = Vec::new();
    let mut i: usize = 0;
    assert(items@.take(0) =~= Seq::<TomlValue>::empty());
    assert(annotator_views(list@) =~= Seq::<AnnotatorView>::empty());
    assert(texts_of(ids@) =~= annotator_ids(annotator_views(list@)));
    while i < items.len()
        invariant
            i <= items@.len(),
            annotators_of(recipe_id@, items@.take(i as int), default_repeats) == Ok::<Seq<AnnotatorView>, Seq<char>>(annotator_views(list@)),
            texts_of(ids@) == annotator_ids(annotator_views(list@)),
        decreases items@.len() - i,
    {
        proof {
            reveal(annotators_of);
        }
        assert(items@.take(i + 1).drop_last() =~= items@.take(i as int));
        assert(items@.take(i + 1).last() == items@[i as int]);
        let a = match annotator_from(recipe_id, &items[i], default_repeats) {
            Ok(a) => a,
            Err(m) => {
                proof {
                    lemma_annotators_prefix_err(recipe_id@, items@, default_repeats, i + 1);
                }
                return Err(m);
            },
        };
        if a.annotator_id.as_str().is_empty() {
            proof {
                lemma_annotators_prefix_err(recipe_id@, items@, default_repeats, i + 1);
            }
            return Err(refusal(recipe_id, "annotation.annotators contains an empty id"));
        }
        if has_operation(ids.as_slice(), a.annotator_id.as_str()) {
            let mut m = refusal(recipe_id, "annotation.annotators lists `");
            m.append(a.annotator_id.as_str());
            m.append("` twice");
            proof {
                lemma_annotators_prefix_err(recipe_id@, items@, default_repeats, i + 1);
            }
            return Err(m);
        }
        let ghost before = list@;
        let ghost old_ids = ids@;
        let ghost id = a.annotator_id@;
        ids.push(a.annotator_id.clone());
        list.push(a);
        assert(annotator_views(list@) =~= annotator_views(before).push(list@[before.len() as int]@));
        assert(texts_of(ids@) =~= texts_of(old_ids).push(id));
        assert(annotator_ids(annotator_views(list@)) =~= annotator_ids(annotator_views(before)).push(id));
        i = i + 1;
    }
    assert(items@.take(i as int) =~= items@);
    Ok(list)
}

proof fn lemma_annotators_prefix_err(recipe_id: Seq<char>, items: Seq<TomlValue>, default_repeats: u32, n: int)
    requires
        0 <= n <= items.len(),
        annotators_of(recipe_id, items.take(n), default_repeats) is Err,
    ensures
        annotators_of(recipe_id, items, default_repeats) == annotators_of(recipe_id, items.take(n), default_repeats),
    decreases items.len() - n,
{
    reveal(annotators_of);
    if n < items.len() {
        assert(items.take(n + 1).drop_last() =~= items.take(n));
        lemma_annotators_prefix_err(recipe_id, items, default_repeats, n + 1);
    } else {
        assert(items.take(n) =~= items);
    }
}

/// The throughput caps, in the table's order: each names an annotator class
/// and caps it at 1 to 64 concurrent jobs.
#[verifier::opaque]
pub open spec fn throughput_of(recipe_id: Seq<char>, caps: Seq<(String, TomlValue)>) -> Result<Seq<(Seq<char>, u32)>, Seq<char>>
    decreases caps.len(),
{
    if caps.len() == 0 {
        Ok(Seq::empty())
    } else {
        match throughput_of(recipe_id, caps.drop_last()) {
            Err(e) => Err(e),
            Ok(list) => {
                let class = caps.last().0@;
                if !throughput_classes().contains(class) {
                    Err(about(recipe_id) + "annotation.throughput."@ + class
                        + " is not an annotator class (expected one of deterministic, paid)"@)
                } else {
                    match caps.last().1 {
                        TomlValue::Integer(n) => if 1 <= n <= 64 {
                            Ok(list.push((class, n as u32)))
                        } else {
                            Err(about(recipe_id) + "annotation.throughput."@ + class + " must be 1..=64"@)
                        },
                        _ => Err(about(recipe_id) + "annotation.throughput."@ + class + " must be 1..=64"@),
                    }
                }
            },
        }
    }
}

pub open spec fn cap_views(s: Seq<(String, u32)>) -> Seq<(Seq<char>, u32)> {
    Seq::new(s.len(), |i: int| (s[i].0@, s[i].1))
}

proof fn lemma_throughput_prefix_err(recipe_id: Seq<char>, caps: Seq<(String, TomlValue)>, n: int)
    requires
        0 <= n <= caps.len(),
        throughput_of(recipe_id, caps.take(n)) is Err,
    ensures
        throughput_of(recipe_id, caps) == throughput_of(recipe_id, caps.take(n)),
    decreases caps.len() - n,
{
    reveal(throughput_of);
    if n < caps.len() {
        assert(caps.take(n + 1).drop_last() =~= caps.take(n));
        lemma_throughput_prefix_err(recipe_id, caps, n + 1);
    } else {
        assert(caps.take(n) =~= caps);
    }
}

fn throughput_from(recipe_id: &str, caps: &Vec<(String, TomlValue)>) -> (r: Result<Vec<(String, u32)>, String>)
    ensures
        match r {
            Ok(list) => throughput_of(recipe_id@, caps@) == Ok::<Seq<(Seq<char>, u32)>, Seq<char>>(cap_views(list@)),
            Err(m) => throughput_of(recipe_id@, caps@) == Err::<Seq<(Seq<char>, u32)>, Seq<char>>(m@),
        },
{
    reveal(throughput_of);
    let classes = vec![String::from_str("deterministic"), String::from_str("paid")];
    assert(texts_of(classes@) =~= throughput_classes());
    let mut list: Vec<(String, u32)> = Vec::new();
    let mut i: usize = 0;
    assert(caps@.take(0) =~= Seq::<(String, TomlValue)>::empty());
    assert(cap_views(list@) =~= Seq::<(Seq<char>, u32)>::empty());
    while i < caps.len()
        invariant
            i <= caps@.len(),
            texts_of(classes@) == throughput_classes(),
            throughput_of(recipe_id@, caps@.take(i as int)) == Ok::<Seq<(Seq<char>, u32)>, Seq<char>>(cap_views(list@)),
        decreases caps@.len() - i,
    {
        proof {
            reveal(throughput_of);
        }
        assert(caps@.take(i + 1).drop_last() =~= caps@.take(i as int));
        assert(caps@.take(i + 1).last() == caps@[i as int]);
        let class = &caps[i].0;
        if !has_operation(classes.as_slice(), class.as_str()) {
            let mut m = refusal(recipe_id, "annotation.throughput.");
            m.append(class.as_str());
            m.append(" is not an annotator class (expected one of deterministic, paid)");
            proof {
                lemma_throughput_prefix_err(recipe_id@, caps@, i + 1);
            }
            return Err(m);
        }
        let cap = match &caps[i].1 {
            TomlValue::Integer(n) => if 1 <= *n && *n <= 64 {
                Some(*n as u32)
            } else {
                None
            },
            _ => None,
        };
        match cap {
            Some(n) => {
                let ghost before = list@;
                list.push((class.clone(), n));
                assert(cap_views(list@) =~= cap_views(before).push((class@, n)));
            },
            None => {
                let mut m = refusal(recipe_id, "annotation.throughput.");
                m.append(class.as_str());
                m.append(" must be 1..=64");
                proof {
                    lemma_throughput_prefix_err(recipe_id@, caps@, i + 1);
                }
                return Err(m);
            },
        }
        i = i + 1;
    }
    assert(caps@.take(i as int) =~= caps@);
    Ok(list)
}

/// A paid lane's cost ceiling in US dollars, as the recipe wrote it: a float
/// (by its IEEE 754 bits) or an integer.
#[derive(Clone, Copy, Debug, PartialEq, Eq, Structural)]
pub enum MaxCost {
    Float(u64),
    Integer(i64),
}

/// Whether IEEE 754 bits encode a finite number above zero: the sign bit is
/// clear, the exponent is not all ones, and the value is not zero.
pub open spec fn positive_finite_bits(bits: u64) -> bool {
    bits >> 63u64 == 0 && (bits >> 52u64) & 0x7ffu64 != 0x7ffu64 && bits != 0
}

/// A ceiling is a positive finite number.
pub open spec fn max_cost_value(v: TomlValue) -> Option<MaxCost> {
    match v {
        TomlValue::Float(bits) => if positive_finite_bits(bits) { Some(MaxCost::Float(bits)) } else { None },
        TomlValue::Integer(n) => if n > 0 { Some(MaxCost::Integer(n)) } else { None },
        _ => None,
    }
}

fn max_cost_of(v: &TomlValue) -> (r: Option<MaxCost>)
    ensures
        r == max_cost_value(*v),
{
    match v {
        TomlValue::Float(bits) => {
            let b = *bits;
            if b >> 63u64 == 0 && (b >> 52u64) & 0x7ffu64 != 0x7ffu64 && b != 0 {
                Some(MaxCost::Float(b))
            } else {
                None
            }
        },
        TomlValue::Integer(n) => if *n > 0 {
            Some(MaxCost::Integer(*n))
        } else {
            None
        },
        _ => None,
    }
}

/// An annotation stage: who annotates, how hard they may run, what the paid
/// lane may spend, and the label its annotations carry.
pub struct AnnotationStageSpec {
    pub annotators: Vec<AnnotatorSpec>,
    /// Advisory per-class concurrency caps, forwarded to the container verbatim.
    pub throughput: Vec<(String, u32)>,
    /// Hard ceiling on the paid lane; none means paid annotators are refused.
    pub max_cost_usd: Option<MaxCost>,
    pub label: String,
}

/// A stage as plain values.
pub struct StageView {
    pub annotators: Seq<AnnotatorView>,
    pub throughput: Seq<(Seq<char>, u32)>,
    pub max_cost_usd: Option<MaxCost>,
    pub label: Seq<char>,
}

impl View for AnnotationStageSpec {
    type V = StageView;

    open spec fn view(&self) -> StageView {
        StageView {
            annotators: annotator_views(self.annotators@),
            throughput: cap_views(self.throughput@),
            max_cost_usd: self.max_cost_usd,
            label: self.label@,
        }
    }
}

/// What an enabled block parses to, or the first thing wrong with it: the
/// default repeats, the annotators, the throughput caps, the cost ceiling,
/// then the label.
pub open spec fn enabled_stage(recipe_id: Seq<char>, table: Seq<(String, TomlValue)>) -> Result<StageView, Seq<char>> {
    let r = about(recipe_id);
    let default_repeats = match entry_for(table, "repeats"@) {
        None => Some(1u32),
        Some(v) => repeats_value(v),
    };
    match default_repeats {
        None => Err(r + "annotation.repeats must be 1..=5"@),
        Some(d) => match entry_for(table, "annotators"@) {
            Some(TomlValue::Array(items)) if items@.len() > 0 => if items@.len() > 16 {
                Err(r + "annotation.annotators lists more than 16 annotators"@)
            } else {
                match annotators_of(recipe_id, items@, d) {
                    Err(e) => Err(e),
                    Ok(annotators) => match stage_rest(recipe_id, table) {
                        Err(e) => Err(e),
                        Ok((throughput, max_cost, label)) => Ok(StageView {
                            annotators,
                            throughput,
                            max_cost_usd: max_cost,
                            label,
                        }),
                    },
                }
            },
            _ => Err(r + "annotation.annotators must list at least one annotator"@),
        },
    }
}

/// The throughput caps, the cost ceiling and the label of a block.
#[verifier::opaque]
pub open spec fn stage_rest(recipe_id: Seq<char>, table: Seq<(String, TomlValue)>) -> Result<
    (Seq<(Seq<char>, u32)>, Option<MaxCost>, Seq<char>),
    Seq<char>,
> {
    let r = about(recipe_id);
    let throughput = match entry_for(table, "throughput"@) {
        None => Ok(Seq::empty()),
        Some(TomlValue::Table(caps)) => throughput_of(recipe_id, caps@),
        Some(_) => Err(r + "annotation.throughput must be a table"@),
    };
    match throughput {
        Err(e) => Err(e),
        Ok(caps) => {
            let max_cost = match entry_for(table, "max_cost_usd"@) {
                None => Ok(None),
                Some(v) => match max_cost_value(v) {
                    Some(c) => Ok(Some(c)),
                    None => Err(()),
                },
            };
            match max_cost {
                Err(_) => Err(r + "annotation.max_cost_usd must be a positive finite number"@),
                Ok(cost) => match entry_for(table, "label"@) {
                    None => Ok((caps, cost, "post_rollout"@)),
                    Some(TomlValue::Text(t)) => if trim(t@).len() > 0 {
                        Ok((caps, cost, trim(t@)))
                    } else {
                        Err(r + "annotation.label must be a non-empty string"@)
                    },
                    Some(_) => Err(r + "annotation.label must be a non-empty string"@),
                },
            }
        },
    }
}

/// What an `[annotation]` block parses to: a refusal naming the first thing
/// wrong with it; no stage where it sets `enabled = false`; else the stage.
pub open spec fn parsed_stage(recipe_id: Seq<char>, table: Seq<(String, TomlValue)>) -> Result<Option<StageView>, Seq<char>> {
    match first_unknown(table, spec_keys()) {
        Some(k) => Err(about(recipe_id) + "annotation."@ + k + " is not an admitted option"@),
        None => match entry_for(table, "enabled"@) {
            Some(TomlValue::Boolean(false)) => Ok(None),
            Some(TomlValue::Boolean(true)) | None => match enabled_stage(recipe_id, table) {
                Ok(s) => Ok(Some(s)),
                Err(e) => Err(e),
            },
            Some(_) => Err(about(recipe_id) + "annotation.enabled must be a boolean"@),
        },
    }
}

fn stage_rest_from(recipe_id: &str, table: &Vec<(String, TomlValue)>) -> (r: Result<
    (Vec<(String, u32)>, Option<MaxCost>, String),
    String,
>)
    ensures
        match r {
            Ok((caps, cost, label)) => stage_rest(recipe_id@, table@) == Ok::<_, Seq<char>>((cap_views(caps@), cost, label@)),
            Err(m) => stage_rest(recipe_id@, table@) == Err::<(Seq<(Seq<char>, u32)>, Option<MaxCost>, Seq<char>), Seq<char>>(m@),
        },
{
    reveal(stage_rest);
    let caps = match position_of(table, "throughput") {
        None => {
            let v: Vec<(String, u32)> = Vec::new();
            assert(cap_views(v@) =~= Seq::<(Seq<char>, u32)>::empty());
            v
        },
        Some(i) => match &table[i].1 {
            TomlValue::Table(caps) => match throughput_from(recipe_id, caps) {
                Ok(v) => v,
                Err(m) => return Err(m),
            },
            _ => return Err(refusal(recipe_id, "annotation.throughput must be a table")),
        },
    };
    let cost = match position_of(table, "max_cost_usd") {
        None => None,
        Some(i) => match max_cost_of(&table[i].1) {
            Some(c) => Some(c),
            None => return Err(refusal(recipe_id, "annotation.max_cost_usd must be a positive finite number")),
        },
    };
    let label = match position_of(table, "label") {
        None => String::from_str("post_rollout"),
        Some(i) => match &table[i].1 {
            TomlValue::Text(t) => {
                let v = trim_str(t.as_str());
                if v.as_str().is_empty() {
                    return Err(refusal(recipe_id, "annotation.label must be a non-empty string"));
                }
                v
            },
            _ => return Err(refusal(recipe_id, "annotation.label must be a non-empty string")),
        },
    };
    Ok((caps, cost, label))
}

fn enabled_stage_from(recipe_id: &str, table: &Vec<(String, TomlValue)>) -> (r: Result<AnnotationStageSpec, String>)
    ensures
        match r {
            Ok(s) => enabled_stage(recipe_id@, table@) == Ok::<StageView, Seq<char>>(s@),
            Err(m) => enabled_stage(recipe_id@, table@) == Err::<StageView, Seq<char>>(m@),
        },
{
    let default_repeats = match position_of(table, "repeats") {
        None => 1u32,
        Some(i) => match repeats_of(&table[i].1) {
            Some(n) => n,
            None => return Err(refusal(recipe_id, "annotation.repeats must be 1..=5")),
        },
    };
    let items = match position_of(table, "annotators") {
        Some(i) => match &table[i].1 {
            TomlValue::Array(items) => if items.len() > 0 {
                items
            } else {
                return Err(refusal(recipe_id, "annotation.annotators must list at least one annotator"));
            },
            _ => return Err(refusal(recipe_id, "annotation.annotators must list at least one annotator")),
        },
        None => return Err(refusal(recipe_id, "annotation.annotators must list at least one annotator")),
    };
    if items.len() > MAX_ANNOTATORS {
        return Err(refusal(recipe_id, "annotation.annotators lists more than 16 annotators"));
    }
    let annotators = match annotators_from(recipe_id, items, default_repeats) {
        Ok(a) => a,
        Err(m) => return Err(m),
    };
    match stage_rest_from(recipe_id, table) {
        Ok((throughput, max_cost_usd, label)) => Ok(AnnotationStageSpec { annotators, throughput, max_cost_usd, label }),
        Err(m) => Err(m),
    }
}

impl AnnotationStageSpec {
    /// Reads the `[annotation]` table of a workspace recipe. Every bound is
    /// checked here, where it is read; `enabled = false` keeps the block but
    /// turns the stage off.
    pub fn parse(recipe_id: &str, table: &Vec<(String, TomlValue)>) -> (r: Result<Option<AnnotationStageSpec>, String>)
        ensures
            match r {
                Ok(Some(s)) => parsed_stage(recipe_id@, table@) == Ok::<Option<StageView>, Seq<char>>(Some(s@)),
                Ok(None) => parsed_stage(recipe_id@, table@) == Ok::<Option<StageView>, Seq<char>>(None),
                Err(m) => parsed_stage(recipe_id@, table@) == Err::<Option<StageView>, Seq<char>>(m@),
            },
    {
        let admitted = spec_key_list();
        if let Some(k) = find_unknown(table, &admitted) {
            let mut m = refusal(recipe_id, "annotation.");
            m.append(k.as_str());
            m.append(" is not an admitted option");
            return Err(m);
        }
        match position_of(table, "enabled") {
            Some(i) => match &table[i].1 {
                TomlValue::Boolean(true) => {},
                TomlValue::Boolean(false) => return Ok(None),
                _ => return Err(refusal(recipe_id, "annotation.enabled must be a boolean")),
            },
            None => {},
        }
        match enabled_stage_from(recipe_id, table) {
            Ok(s) => Ok(Some(s)),
            Err(m) => Err(m),
        }
    }
}

pub open spec fn optional_entry(key: Seq<char>, value: Option<Seq<char>>) -> Seq<(Seq<char>, JsonView)> {
    match value {
        Some(v) => seq![(key, text_view(v))],
        None => Seq::empty(),
    }
}

/// The container's plan entry for one annotator: its id and repeats, and each
/// setting it was given.
pub open spec fn plan_json(a: AnnotatorView) -> JsonView {
    JsonView::Object(
        seq![("annotator_id"@, text_view(a.annotator_id)), ("repeats"@, count_view(a.repeats as u64))]
            + optional_entry("model"@, a.model) + optional_entry("rubric_id"@, a.rubric_id)
            + optional_entry("reasoning_effort"@, a.reasoning_effort) + optional_entry("runner_kind"@, a.runner_kind),
    )
}

fn push_optional(entries: &mut Vec<(String, JsonValue)>, key: &str, value: &Option<String>)
    ensures
        entries_of(final(entries)@) == entries_of(old(entries)@) + optional_entry(key@, opt_text(*value)),
{
    proof {
        crate::json::lemma_entries_of(entries@);
    }
    let ghost before = entries@;
    match value {
        Some(v) => {
            entries.push(field(key, text_value(v.as_str())));
            proof {
                crate::json::lemma_entries_of(entries@);
            }
            assert(entries_of(entries@) =~= entries_of(before) + optional_entry(key@, opt_text(*value)));
        },
        None => {
            assert(entries_of(entries@) =~= entries_of(before) + optional_entry(key@, opt_text(*value)));
        },
    }
}

fn plan_of(a: &AnnotatorSpec) -> (r: JsonValue)
    ensures
        r@ == plan_json(a@),
{
    let mut entries: Vec<(String, JsonValue)> = Vec::new();
    entries.push(field("annotator_id", text_value(a.annotator_id.as_str())));
    entries.push(field("repeats", unsigned_value(a.repeats as u64)));
    proof {
        crate::json::lemma_entries_of(entries@);
    }
    assert(entries_of(entries@) =~= seq![("annotator_id"@, text_view(a.annotator_id@)), ("repeats"@, count_view(a.repeats as u64))]);
    push_optional(&mut entries, "model", &a.model);
    push_optional(&mut entries, "rubric_id", &a.rubric_id);
    push_optional(&mut entries, "reasoning_effort", &a.reasoning_effort);
    push_optional(&mut entries, "runner_kind", &a.runner_kind);
    object_of(entries)
}

impl AnnotationStageSpec {
    /// The container's annotator plan, one entry per annotator in order.
    pub fn campaign_annotators(&self) -> (r: Vec<JsonValue>)
        ensures
            r@.len() == self.annotators@.len(),
            forall|i: int| 0 <= i < r@.len() ==> (#[trigger] r@[i])@ == plan_json(self.annotators@[i]@),
    {
        let mut r: Vec<JsonValue> = Vec::new();
        let mut i: usize = 0;
        while i < self.annotators.len()
            invariant
                i <= self.annotators@.len(),
                r@.len() == i,
                forall|k: int| 0 <= k < i ==> (#[trigger] r@[k])@ == plan_json(self.annotators@[k]@),
            decreases self.annotators@.len() - i,
        {
            r.push(plan_of(&self.annotators[i]));
            i = i + 1;
        }
        r
    }
}

/// The (id, digest) a sealed trace is addressed by: its producer's trace id
/// where it names one, else its trace id, and its non-blank digest, trimmed.
pub open spec fn trace_ref(trace: JsonView) -> Option<(Seq<char>, Seq<char>)> {
    let id = if member(trace, "producerTraceId"@) is Some {
        crate::recipe_start::text_member(trace, "producerTraceId"@)
    } else {
        crate::recipe_start::text_member(trace, "traceId"@)
    };
    let digest = match crate::recipe_start::text_member(trace, "digest"@) {
        Some(d) => if trim(d).len() > 0 { Some(trim(d)) } else { None },
        None => None,
    };
    match (id, digest) {
        (Some(i), Some(d)) => Some((i, d)),
        _ => None,
    }
}

/// The addressable traces among some, in order.
pub open spec fn trace_refs(traces: Seq<JsonView>) -> Seq<(Seq<char>, Seq<char>)>
    decreases traces.len(),
{
    if traces.len() == 0 {
        Seq::empty()
    } else {
        match trace_ref(traces.last()) {
            Some(r) => trace_refs(traces.drop_last()).push(r),
            None => trace_refs(traces.drop_last()),
        }
    }
}

/// The traces a terminal record seals: none for partial evidence.
pub open spec fn record_traces(record: JsonView) -> Seq<JsonView> {
    if crate::recipe_start::text_member(record, "evidenceState"@) == Some("sealed_partial"@) {
        Seq::empty()
    } else {
        match member(record, "sealedTrace"@) {
            Some(sealed) => match member(sealed, "traces"@) {
                Some(JsonView::Array(items)) => items,
                _ => Seq::empty(),
            },
            None => Seq::empty(),
        }
    }
}

/// Every addressable sealed trace of the records, in order.
pub open spec fn sealed_refs(records: Seq<JsonView>) -> Seq<(Seq<char>, Seq<char>)>
    decreases records.len(),
{
    if records.len() == 0 {
        Seq::empty()
    } else {
        sealed_refs(records.drop_last()) + trace_refs(record_traces(records.last()))
    }
}

pub open spec fn ref_digests(refs: Seq<(Seq<char>, Seq<char>)>) -> Seq<Seq<char>> {
    Seq::new(refs.len(), |i: int| refs[i].1)
}

/// The first reference of each digest, in order.
pub open spec fn unique_digests(refs: Seq<(Seq<char>, Seq<char>)>) -> Seq<(Seq<char>, Seq<char>)>
    decreases refs.len(),
{
    if refs.len() == 0 {
        Seq::empty()
    } else {
        let before = unique_digests(refs.drop_last());
        if ref_digests(before).contains(refs.last().1) {
            before
        } else {
            before.push(refs.last())
        }
    }
}

/// The `trace_v5` reference the container's planner consumes.
pub open spec fn trace_ref_json(r: (Seq<char>, Seq<char>)) -> JsonView {
    JsonView::Object(seq![("kind"@, text_view("trace_v5"@)), ("id"@, text_view(r.0)), ("digest"@, text_view(r.1))])
}

fn trace_ref_value(id: &str, digest: &str) -> (r: JsonValue)
    ensures
        r@ == trace_ref_json((id@, digest@)),
{
    let entries = vec![
        field("kind", text_value("trace_v5")),
        field("id", text_value(id)),
        field("digest", text_value(digest)),
    ];
    proof {
        crate::json::lemma_entries_of(entries@);
    }
    let r = object_of(entries);
    assert(entries_of(entries@) =~= seq![("kind"@, text_view("trace_v5"@)), ("id"@, text_view(id@)), ("digest"@, text_view(digest@))]);
    r
}

fn trace_ref_of(trace: &JsonValue) -> (r: Option<(String, String)>)
    ensures
        match r {
            Some((i, d)) => trace_ref(trace@) == Some((i@, d@)),
            None => trace_ref(trace@) is None,
        },
{
    let id = if trace.get("producerTraceId").is_some() {
        match trace.get("producerTraceId") {
            Some(v) => match v.as_text() {
                Some(t) => Some(t.clone()),
                None => None,
            },
            None => None,
        }
    } else {
        match trace.get("traceId") {
            Some(v) => match v.as_text() {
                Some(t) => Some(t.clone()),
                None => None,
            },
            None => None,
        }
    };
    let digest = match trace.get("digest") {
        Some(v) => match v.as_text() {
            Some(t) => {
                let d = trim_str(t.as_str());
                if d.as_str().is_empty() {
                    None
                } else {
                    Some(d)
                }
            },
            None => None,
        },
        None => None,
    };
    match (id, digest) {
        (Some(i), Some(d)) => Some((i, d)),
        _ => None,
    }
}

fn traces_of_record(record: &JsonValue) -> (r: Option<&Vec<JsonValue>>)
    ensures
        match r {
            Some(items) => record_traces(record@) == crate::json::items_view(items@, items@.len() as nat),
            None => record_traces(record@) == Seq::<JsonView>::empty(),
        },
{
    match record.get("evidenceState") {
        Some(v) => match v.as_text() {
            Some(t) => if same_text(t.as_str(), "sealed_partial") {
                return None;
            },
            None => {},
        },
        None => {},
    }
    match record.get("sealedTrace") {
        Some(sealed) => match sealed.get("traces") {
            Some(t) => t.as_items(),
            None => None,
        },
        None => None,
    }
}

/// References for every fully sealed trace in a run's terminal records, each
/// digest once: partial evidence is not annotatable and is skipped.
pub fn sealed_trace_refs(records: &Vec<JsonValue>) -> (r: Vec<JsonValue>)
    ensures
        r@.len() == unique_digests(sealed_refs(crate::json::items_view(records@, records@.len() as nat))).len(),
        forall|i: int| 0 <= i < r@.len() ==> (#[trigger] r@[i])@ == trace_ref_json(
            unique_digests(sealed_refs(crate::json::items_view(records@, records@.len() as nat)))[i],
        ),
{
    proof {
        crate::json::lemma_items_view_len(records@, records@.len() as nat);
    }
    let ghost all = crate::json::items_view(records@, records@.len() as nat);
    let mut out: Vec<JsonValue> = Vec::new();
    let mut digests: Vec<String> = Vec::new();
    let ghost mut kept: Seq<(Seq<char>, Seq<char>)> = Seq::empty();
    let mut i: usize = 0;
    while i < records.len()
        invariant
            i <= records@.len(),
            all == crate::json::items_view(records@, records@.len() as nat),
            all.len() == records@.len(),
            forall|k: int| 0 <= k < records@.len() ==> #[trigger] all[k] == records@[k]@,
            kept == unique_digests(sealed_refs(all.take(i as int))),
            texts_of(digests@) == ref_digests(kept),
            out@.len() == kept.len(),
            forall|k: int| 0 <= k < out@.len() ==> (#[trigger] out@[k])@ == trace_ref_json(kept[k]),
        decreases records@.len() - i,
    {
        assert(all.take(i + 1).drop_last() =~= all.take(i as int));
        assert(all.take(i + 1).last() == records@[i as int]@);
        let ghost prior = sealed_refs(all.take(i as int));
        match traces_of_record(&records[i]) {
            None => {
                assert(trace_refs(Seq::<JsonView>::empty()) =~= Seq::<(Seq<char>, Seq<char>)>::empty());
                assert(sealed_refs(all.take(i + 1)) =~= prior);
            },
            Some(traces) => {
                proof {
                    crate::json::lemma_items_view_len(traces@, traces@.len() as nat);
                }
                let ghost tv = crate::json::items_view(traces@, traces@.len() as nat);
                let mut j: usize = 0;
                assert(prior + trace_refs(tv.take(0)) =~= prior);
                while j < traces.len()
                    invariant
                        j <= traces@.len(),
                        tv == crate::json::items_view(traces@, traces@.len() as nat),
                        tv.len() == traces@.len(),
                        forall|k: int| 0 <= k < traces@.len() ==> #[trigger] tv[k] == traces@[k]@,
                        kept == unique_digests(prior + trace_refs(tv.take(j as int))),
                        texts_of(digests@) == ref_digests(kept),
                        out@.len() == kept.len(),
                        forall|k: int| 0 <= k < out@.len() ==> (#[trigger] out@[k])@ == trace_ref_json(kept[k]),
                    decreases traces@.len() - j,
                {
                    assert(tv.take(j + 1).drop_last() =~= tv.take(j as int));
                    assert(tv.take(j + 1).last() == traces@[j as int]@);
                    match trace_ref_of(&traces[j]) {
                        None => {
                            assert(prior + trace_refs(tv.take(j + 1)) =~= prior + trace_refs(tv.take(j as int)));
                        },
                        Some((id, digest)) => {
                            let ghost whole = prior + trace_refs(tv.take(j + 1));
                            assert(whole =~= (prior + trace_refs(tv.take(j as int))).push((id@, digest@)));
                            assert(whole.drop_last() =~= prior + trace_refs(tv.take(j as int)));
                            if !has_operation(digests.as_slice(), digest.as_str()) {
                                let entry = trace_ref_value(id.as_str(), digest.as_str());
                                let ghost old_digests = digests@;
                                out.push(entry);
                                digests.push(digest);
                                proof {
                                    kept = kept.push((id@, digest@));
                                    assert(texts_of(digests@) =~= texts_of(old_digests).push(digest@));
                                    assert(ref_digests(kept) =~= ref_digests(kept.drop_last()).push(digest@));
                                }
                            }
                        },
                    }
                    j = j + 1;
                }
                assert(tv.take(j as int) =~= tv);
                assert(record_traces(all.take(i + 1).last()) == tv);
                assert(sealed_refs(all.take(i + 1)) == prior + trace_refs(tv));
            },
        }
        i = i + 1;
    }
    assert(all.take(i as int) =~= all);
    out
}

/// The traces handed to the annotation planner name each digest once.
pub proof fn law_sealed_refs_name_each_digest_once(refs: Seq<(Seq<char>, Seq<char>)>)
    ensures
        forall|i: int, j: int| 0 <= i < j < unique_digests(refs).len() ==>
            (#[trigger] unique_digests(refs)[i]).1 != (#[trigger] unique_digests(refs)[j]).1,
    decreases refs.len(),
{
    if refs.len() > 0 {
        law_sealed_refs_name_each_digest_once(refs.drop_last());
        let before = unique_digests(refs.drop_last());
        if !ref_digests(before).contains(refs.last().1) {
            let after = unique_digests(refs);
            assert forall|i: int, j: int| 0 <= i < j < after.len() implies (#[trigger] after[i]).1 != (#[trigger] after[j]).1 by {
                if j == before.len() {
                    assert(ref_digests(before)[i] == before[i].1);
                } else {
                    assert(after[i] == before[i] && after[j] == before[j]);
                }
            }
        }
    }
}

/// A parsed stage lists each annotator id once, and never an empty one.
pub proof fn law_parsed_annotators_are_distinct(recipe_id: Seq<char>, items: Seq<TomlValue>, default_repeats: u32)
    ensures
        annotators_of(recipe_id, items, default_repeats) matches Ok(list) ==> {
            &&& forall|i: int, j: int| 0 <= i < j < list.len() ==>
                (#[trigger] list[i]).annotator_id != (#[trigger] list[j]).annotator_id
            &&& forall|i: int| 0 <= i < list.len() ==> (#[trigger] list[i]).annotator_id.len() > 0
        },
    decreases items.len(),
{
    reveal(annotators_of);
    if items.len() > 0 {
        law_parsed_annotators_are_distinct(recipe_id, items.drop_last(), default_repeats);
        if let Ok(list) = annotators_of(recipe_id, items, default_repeats) {
            let before = annotators_of(recipe_id, items.drop_last(), default_repeats)->Ok_0;
            assert(list == before.push(list.last()));
            assert forall|i: int, j: int| 0 <= i < j < list.len() implies
                (#[trigger] list[i]).annotator_id != (#[trigger] list[j]).annotator_id by {
                if j == before.len() {
                    assert(annotator_ids(before)[i] == before[i].annotator_id);
                } else {
                    assert(list[i] == before[i] && list[j] == before[j]);
                }
            }
            assert forall|i: int| 0 <= i < list.len() implies (#[trigger] list[i]).annotator_id.len() > 0 by {
                if i < before.len() {
                    assert(list[i] == before[i]);
                }
            }
        }
    }
}

} // verus!
