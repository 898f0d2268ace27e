//! Identity of locally declared container sources.
//!
//! A container source is not a chat workspace. Sources are found below bounded
//! desktop roots, catalogued with immutable declaration metadata, and
//! addressed by source id plus spec id.

use crate::admission::pipeline::has_operation;
use crate::migration::{sha256_hex_of_text, text_sha256_hex};
use crate::text::{
    chars_lt, chars_of, compare_chars, concat, concat3, lemma_chars_lt_asymmetric, lemma_chars_lt_total,
    lemma_chars_lt_transitive, same_text, texts_of, trim, trim_str, KeyOrder,
};
use vstd::prelude::*;

verus! {

/// One container a source's manifest declares: the fields the catalog reads.
pub struct ContainerSpec {
    pub id: String,
    /// The working directory the declaration resolves to.
    pub cwd: String,
}

impl Clone for ContainerSpec {
    fn clone(&self) -> (r: Self)
        ensures
            r.id@ == self.id@,
            r.cwd@ == self.cwd@,
    {
        ContainerSpec { id: self.id.clone(), cwd: self.cwd.clone() }
    }
}

/// A folder holding a container manifest.
pub struct ContainerSource {
    pub id: String,
    pub root: String,
    pub manifest_path: String,
    pub manifest_hash: String,
    pub git_revision: Option<String>,
    pub specs: Vec<ContainerSpec>,
}

/// The index of the first spec with this id.
pub open spec fn spec_index(specs: Seq<ContainerSpec>, spec_id: Seq<char>) -> Option<int> {
    if exists|i: int| 0 <= i < specs.len() && (#[trigger] specs[i]).id@ == spec_id {
        Some(choose|i: int| 0 <= i < specs.len() && (#[trigger] specs[i]).id@ == spec_id
            && forall|j: int| 0 <= j < i ==> (#[trigger] specs[j]).id@ != spec_id)
    } else {
        None
    }
}

/// The refusal for a spec a source does not declare.
pub open spec fn undeclared_spec(spec_id: Seq<char>, source_id: Seq<char>) -> Seq<char> {
    "container spec `"@ + spec_id + "` is not declared by source `"@ + source_id + "`"@
}

impl ContainerSource {
    /// The spec with this id, as the source declares it.
    pub fn spec(&self, spec_id: &str) -> (r: Result<ContainerSpec, String>)
        ensures
            match r {
                Ok(spec) => spec_index(self.specs@, spec_id@) matches Some(i)
                    && spec.id@ == self.specs@[i].id@ && spec.cwd@ == self.specs@[i].cwd@,
                Err(m) => spec_index(self.specs@, spec_id@) is None
                    && m@ == undeclared_spec(spec_id@, self.id@),
            },
    {
        let mut i: usize = 0;
        while i < self.specs.len()
            invariant
                i <= self.specs@.len(),
                forall|j: int| 0 <= j < i ==> (#[trigger] self.specs@[j]).id@ != spec_id@,
            decreases self.specs@.len() - i,
        {
            if same_text(self.specs[i].id.as_str(), spec_id) {
                proof {
                    let w = choose|k: int| 0 <= k < self.specs@.len() && (#[trigger] self.specs@[k]).id@ == spec_id@
                        && forall|j: int| 0 <= j < k ==> (#[trigger] self.specs@[j]).id@ != spec_id@;
                    assert(self.specs@[i as int].id@ == spec_id@);
                    if w < i {
                        assert(self.specs@[w].id@ != spec_id@);
                    } else if w > i {
                        assert(self.specs@[i as int].id@ != spec_id@);
                    }
                }
                return Ok(self.specs[i].clone());
            }
            i = i + 1;
        }
        let mut m = concat3("container spec `", spec_id, "` is not declared by source `");
        m.append(self.id.as_str());
        m.append("`");
        Err(m)
    }
}

/// The longest identifier accepted, in UTF-8 bytes.
pub const MAX_IDENTIFIER_BYTES: usize = 256;

/// An identifier is its trimmed text, which must be non-empty and at most
/// 256 UTF-8 bytes long.
pub open spec fn identifier_ok(value: Seq<char>) -> bool {
    trim(value).len() > 0 && vstd::utf8::encode_utf8(trim(value)).len() <= 256
}

proof fn lemma_utf8_nonempty(chars: Seq<char>)
    requires
        chars.len() > 0,
    ensures
        vstd::utf8::encode_utf8(chars).len() > 0,
{
    let first = vstd::utf8::encode_scalar(chars[0] as u32);
    assert(vstd::utf8::encode_utf8(chars) == first + vstd::utf8::encode_utf8(chars.drop_first()));
    assert(first.len() >= 1);
}

/// Reads a required identifier argument named `label`.
pub fn require_identifier(value: &str, label: &str) -> (r: Result<String, String>)
    ensures
        match r {
            Ok(id) => identifier_ok(value@) && id@ == trim(value@),
            Err(m) => !identifier_ok(value@) && m@ == label@ + " is required"@,
        },
{
    let value = trim_str(value);
    let byte_len = value.as_str().as_bytes().len();
    if byte_len == 0 || byte_len > MAX_IDENTIFIER_BYTES {
        proof {
            if value@.len() > 0 {
                lemma_utf8_nonempty(value@);
            }
        }
        return Err(concat(label, " is required"));
    }
    proof {
        if value@.len() == 0 {
            assert(vstd::utf8::encode_utf8(value@) =~= Seq::<u8>::empty());
        }
    }
    Ok(value)
}

/// The identity of a source folder: `src_` and the hexadecimal SHA-256 of its
/// canonical path.
pub fn source_id(root: &str) -> (r: String)
    ensures
        r@ == "src_"@ + text_sha256_hex(root@),
{
    let hex = sha256_hex_of_text(root);
    concat("src_", hex.as_str())
}

/// The hash of a manifest's text: `sha256:` and its hexadecimal SHA-256.
pub fn content_hash(text: &str) -> (r: String)
    ensures
        r@ == "sha256:"@ + text_sha256_hex(text@),
{
    let hex = sha256_hex_of_text(text);
    concat("sha256:", hex.as_str())
}

/// The revision `git rev-parse HEAD` reported: its trimmed output where the
/// command succeeded and printed something.
pub fn revision_from_output(succeeded: bool, stdout: Option<String>) -> (r: Option<String>)
    ensures
        match r {
            Some(rev) => succeeded && (stdout matches Some(out) && rev@ == trim(out@) && rev@.len() > 0),
            None => !succeeded || stdout is None || (stdout matches Some(out) && trim(out@).len() == 0),
        },
{
    if !succeeded {
        return None;
    }
    match stdout {
        Some(out) => {
            let revision = trim_str(out.as_str());
            if revision.as_str().is_empty() {
                None
            } else {
                Some(revision)
            }
        },
        None => None,
    }
}

/// Whether `spec` is the declaration of `spec_id` among `specs`.
pub open spec fn is_declared_spec(specs: Seq<ContainerSpec>, spec_id: Seq<char>, spec: ContainerSpec) -> bool {
    match spec_index(specs, spec_id) {
        Some(k) => spec.id@ == specs[k].id@ && spec.cwd@ == specs[k].cwd@,
        None => false,
    }
}

/// The refusal for a source id no discovered source has.
pub open spec fn undiscoverable_source(source_id: Seq<char>) -> Seq<char> {
    "container source `"@ + source_id
        + "` is not currently discoverable; its folder may have moved, or its project source may have been removed. Call container_discover and read `readiness` before retrying."@
}

/// Whether a source declares a spec with this id.
pub open spec fn declares(source: ContainerSource, spec_id: Seq<char>) -> bool {
    spec_index(source.specs@, spec_id) is Some
}

fn find_source(sources: &Vec<ContainerSource>, source_id: &str) -> (r: Option<usize>)
    ensures
        match r {
            Some(i) => i < sources@.len() && sources@[i as int].id@ == source_id@
                && forall|j: int| 0 <= j < i ==> (#[trigger] sources@[j]).id@ != source_id@,
            None => forall|j: int| 0 <= j < sources@.len() ==> (#[trigger] sources@[j]).id@ != source_id@,
        },
{
    let mut i: usize = 0;
    while i < sources.len()
        invariant
            i <= sources@.len(),
            forall|j: int| 0 <= j < i ==> (#[trigger] sources@[j]).id@ != source_id@,
        decreases sources@.len() - i,
    {
        if same_text(sources[i].id.as_str(), source_id) {
            return Some(i);
        }
        i = i + 1;
    }
    None
}

/// Resolves a source id and spec id against the discovered sources: both ids
/// are required identifiers; the first source with that id must be there and
/// must declare the spec.
pub fn resolve_in(
    sources: Vec<ContainerSource>,
    source_id: &str,
    spec_id: &str,
) -> (r: Result<(ContainerSource, ContainerSpec), String>)
    ensures
        !identifier_ok(source_id@) ==> r is Err && r->Err_0@ == "source_id"@ + " is required"@,
        identifier_ok(source_id@) && !identifier_ok(spec_id@) ==> r is Err && r->Err_0@
            == "spec_id"@ + " is required"@,
        identifier_ok(source_id@) && identifier_ok(spec_id@) ==> match r {
            Ok((source, spec)) => exists|i: int| 0 <= i < sources@.len()
                && source == sources@[i]
                && source.id@ == trim(source_id@)
                && (forall|j: int| 0 <= j < i ==> (#[trigger] sources@[j]).id@ != trim(source_id@))
                && is_declared_spec(source.specs@, trim(spec_id@), spec),
            Err(m) => (forall|j: int| 0 <= j < sources@.len() ==> (#[trigger] sources@[j]).id@ != trim(source_id@))
                && m@ == undiscoverable_source(trim(source_id@))
                || exists|i: int| 0 <= i < sources@.len()
                    && (#[trigger] sources@[i]).id@ == trim(source_id@)
                    && (forall|j: int| 0 <= j < i ==> (#[trigger] sources@[j]).id@ != trim(source_id@))
                    && !declares(sources@[i], trim(spec_id@))
                    && m@ == undeclared_spec(trim(spec_id@), trim(source_id@)),
        },
{
    let source_id = match require_identifier(source_id, "source_id") {
        Ok(id) => id,
        Err(m) => return Err(m),
    };
    let spec_id = match require_identifier(spec_id, "spec_id") {
        Ok(id) => id,
        Err(m) => return Err(m),
    };
    match find_source(&sources, source_id.as_str()) {
        Some(i) => {
            let mut sources = sources;
            let ghost before = sources@;
            let source = sources.remove(i);
            assert(source == before[i as int]);
            match source.spec(spec_id.as_str()) {
                Ok(spec) => Ok((source, spec)),
                Err(m) => Err(m),
            }
        },
        None => {
            let mut m = concat("container source `", source_id.as_str());
            m.append("` is not currently discoverable; its folder may have moved, or its project source may have been removed. Call container_discover and read `readiness` before retrying.");
            Err(m)
        },
    }
}

/// The refusal when no discovered source declares a spec.
pub open spec fn spec_not_found(spec_id: Seq<char>) -> Seq<char> {
    "container spec `"@ + spec_id
        + "` was not found in the desktop container catalog; call container_discover and read `readiness` to see whether a project source still needs to be approved"@
}

/// The refusal when several discovered sources declare a spec.
pub open spec fn spec_ambiguous(spec_id: Seq<char>) -> Seq<char> {
    "container spec `"@ + spec_id
        + "` is ambiguous; discover sources and call container_ensure with source_id"@
}

/// Resolves a spec id that names no source: only where exactly one discovered
/// source declares it.
pub fn resolve_unique_in(sources: Vec<ContainerSource>, spec_id: &str) -> (r: Result<
    (ContainerSource, ContainerSpec),
    String,
>)
    ensures
        !identifier_ok(spec_id@) ==> r is Err && r->Err_0@ == "spec_id"@ + " is required"@,
        identifier_ok(spec_id@) ==> match r {
            Ok((source, spec)) => exists|i: int| 0 <= i < sources@.len()
                && source == sources@[i]
                && declares(source, trim(spec_id@))
                && (forall|j: int| 0 <= j < sources@.len() && j != i ==> !declares(#[trigger] sources@[j], trim(spec_id@)))
                && is_declared_spec(source.specs@, trim(spec_id@), spec),
            Err(m) => (forall|j: int| 0 <= j < sources@.len() ==> !declares(#[trigger] sources@[j], trim(spec_id@)))
                && m@ == spec_not_found(trim(spec_id@))
                || (exists|i: int, j: int| 0 <= i < j < sources@.len()
                    && declares(#[trigger] sources@[i], trim(spec_id@)) && declares(#[trigger] sources@[j], trim(spec_id@)))
                && m@ == spec_ambiguous(trim(spec_id@)),
        },
{
    let spec_id = match require_identifier(spec_id, "spec_id") {
        Ok(id) => id,
        Err(m) => return Err(m),
    };
    let mut first: Option<usize> = None;
    let mut ambiguous = false;
    let mut i: usize = 0;
    while i < sources.len()
        invariant
            i <= sources@.len(),
            match first {
                Some(f) => f < i && declares(sources@[f as int], spec_id@)
                    && (forall|j: int| 0 <= j < f ==> !declares(#[trigger] sources@[j], spec_id@))
                    && (ambiguous == exists|j: int| f < j < i && declares(#[trigger] sources@[j], spec_id@)),
                None => !ambiguous && forall|j: int| 0 <= j < i ==> !declares(#[trigger] sources@[j], spec_id@),
            },
        decreases sources@.len() - i,
    {
        let declared = sources[i].spec(spec_id.as_str()).is_ok();
        if declared {
            match first {
                Some(_) => {
                    ambiguous = true;
                },
                None => {
                    first = Some(i);
                },
            }
        }
        i = i + 1;
    }
    match first {
        None => {
            let mut m = concat("container spec `", spec_id.as_str());
            m.append("` was not found in the desktop container catalog; call container_discover and read `readiness` to see whether a project source still needs to be approved");
            Err(m)
        },
        Some(f) => {
            if ambiguous {
                let mut m = concat("container spec `", spec_id.as_str());
                m.append("` is ambiguous; discover sources and call container_ensure with source_id");
                return Err(m);
            }
            let mut sources = sources;
            let ghost before = sources@;
            let source = sources.remove(f);
            assert(source == before[f as int]);
            match source.spec(spec_id.as_str()) {
                Ok(spec) => Ok((source, spec)),
                Err(m) => Err(m),
            }
        },
    }
}

/// Sources in order of their ids.
pub open spec fn sorted_by_id(s: Seq<ContainerSource>) -> bool {
    forall|i: int, j: int| 0 <= i < j < s.len() ==> !chars_lt((#[trigger] s[j]).id@, (#[trigger] s[i]).id@)
}

fn id_before(a: &ContainerSource, b: &ContainerSource) -> (r: bool)
    ensures
        r == chars_lt(a.id@, b.id@),
{
    let x = chars_of(a.id.as_str());
    let y = chars_of(b.id.as_str());
    compare_chars(&x, &y) == KeyOrder::Less
}

/// The catalog order of discovered sources: by id, stably.
pub fn order_sources(sources: Vec<ContainerSource>) -> (r: Vec<ContainerSource>)
    ensures
        sorted_by_id(r@),
        r@.to_multiset() == sources@.to_multiset(),
{
    let mut rest = sources;
    let ghost all = rest@;
    let mut out: Vec<ContainerSource> = Vec::new();
    let mut taken: usize = 0;
    let n = rest.len();
    assert(out@ =~= all.take(0));
    while rest.len() > 0
        invariant
            n == all.len(),
            taken + rest@.len() == all.len(),
            rest@ == all.subrange(taken as int, all.len() as int),
            sorted_by_id(out@),
            out@.to_multiset() == all.take(taken as int).to_multiset(),
        decreases rest@.len(),
    {
        let ghost before = out@;
        let x = rest.remove(0);
        assert(x == all[taken as int]);
        assert(rest@ =~= all.subrange(taken + 1, all.len() as int));
        let mut p: usize = 0;
        while p < out.len() && !id_before(&x, &out[p])
            invariant
                out@ == before,
                p <= out@.len(),
                forall|k: int| 0 <= k < p ==> !chars_lt(x.id@, (#[trigger] out@[k]).id@),
            decreases out@.len() - p,
        {
            p = p + 1;
        }
        proof {
            assert forall|k: int| p <= k < before.len() implies !chars_lt((#[trigger] before[k]).id@, x.id@) by {
                assert(chars_lt(x.id@, before[p as int].id@));
                if k > p {
                    assert(!chars_lt(before[k].id@, before[p as int].id@));
                    lemma_chars_lt_total(before[k].id@, before[p as int].id@);
                    if before[k].id@ != before[p as int].id@ {
                        lemma_chars_lt_transitive(x.id@, before[p as int].id@, before[k].id@);
                    }
                }
                lemma_chars_lt_asymmetric(x.id@, before[k].id@);
            }
        }
        out.insert(p, x);
        proof {
            let after = out@;
            assert(after == before.insert(p as int, x));
            assert forall|i: int, j: int| 0 <= i < j < after.len() implies !chars_lt((#[trigger] after[j]).id@, (#[trigger] after[i]).id@) by {
                if j < p {
                    assert(after[i] == before[i] && after[j] == before[j]);
                } else if j == p {
                    assert(after[i] == before[i]);
                } else if i == p {
                    assert(after[j] == before[j - 1]);
                } else if i < p {
                    assert(after[i] == before[i] && after[j] == before[j - 1]);
                } else {
                    assert(after[i] == before[i - 1] && after[j] == before[j - 1]);
                }
            }
            assert(all.take(taken + 1) =~= all.take(taken as int).push(x));
            vstd::seq_lib::to_multiset_insert(before, p as int, x);
            vstd::seq_lib::to_multiset_build(all.take(taken as int), x);
            assert(out@.to_multiset() == before.to_multiset().insert(x));
            assert(all.take(taken + 1).to_multiset() == all.take(taken as int).to_multiset().insert(x));
        }
        taken = taken + 1;
    }
    assert(all.take(taken as int) =~= all);
    out
}

/// The paths in order of first appearance, each once: the folders a
/// discovery examines.
pub open spec fn first_occurrences(s: Seq<Seq<char>>) -> Seq<Seq<char>>
    decreases s.len(),
{
    if s.len() == 0 {
        Seq::empty()
    } else {
        let before = first_occurrences(s.drop_last());
        if s.drop_last().contains(s.last()) {
            before
        } else {
            before.push(s.last())
        }
    }
}

proof fn lemma_contains_push(s: Seq<Seq<char>>, l: Seq<char>, x: Seq<char>)
    ensures
        s.push(l).contains(x) == (s.contains(x) || l == x),
{
    let t = s.push(l);
    if s.contains(x) {
        let k = choose|k: int| 0 <= k < s.len() && s[k] == x;
        assert(t[k] == x);
    }
    if l == x {
        assert(t[s.len() as int] == x);
    }
    if t.contains(x) {
        let k = choose|k: int| 0 <= k < t.len() && t[k] == x;
        if k < s.len() {
            assert(s[k] == x);
        }
    }
}

proof fn lemma_first_occurrences_contains(s: Seq<Seq<char>>, x: Seq<char>)
    ensures
        first_occurrences(s).contains(x) == s.contains(x),
    decreases s.len(),
{
    if s.len() > 0 {
        let d = s.drop_last();
        let l = s.last();
        lemma_first_occurrences_contains(d, x);
        assert(s == d.push(l));
        lemma_contains_push(d, l, x);
        lemma_contains_push(first_occurrences(d), l, x);
        if d.contains(l) && l == x {
            assert(d.contains(x));
        }
    } else {
        assert(!s.contains(x));
        assert(!first_occurrences(s).contains(x));
    }
}

/// Each candidate folder once, in the order first met.
pub fn unique_roots(roots: &Vec<String>) -> (r: Vec<String>)
    ensures
        texts_of(r@) == first_occurrences(texts_of(roots@)),
{
    let ghost all = texts_of(roots@);
    let mut r: Vec<String> = Vec::new();
    let mut i: usize = 0;
    while i < roots.len()
        invariant
            i <= roots@.len(),
            all == texts_of(roots@),
            texts_of(r@) == first_occurrences(all.take(i as int)),
        decreases roots@.len() - i,
    {
        let ghost prefix = all.take(i + 1);
        assert(prefix.drop_last() =~= all.take(i as int));
        assert(prefix.last() == roots@[i as int]@);
        proof {
            lemma_first_occurrences_contains(all.take(i as int), roots@[i as int]@);
        }
        if !has_operation(r.as_slice(), roots[i].as_str()) {
            r.push(roots[i].clone());
            assert(texts_of(r@) =~= first_occurrences(prefix));
        }
        i = i + 1;
    }
    assert(all.take(i as int) =~= all);
    r
}

} // verus!
