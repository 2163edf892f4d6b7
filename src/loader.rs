//! Loading a policy from the text of a TOML configuration, or the default
//! policy where there is no configuration.
use std::collections::BTreeMap;

use bytesize::ByteSize;
use vstd::prelude::*;
use vstd::string::StringSliceAdditionalSpecFns;
use vstd::utf8::encode_utf8;

use crate::config::{build_spec, built_as, default_limits, entries_view, Config, Error, RawEntry, Rejection, SizeRange};
use crate::duration::RetentionDuration;
use crate::nesting::{nesting_bound, nesting_of, MAX_NESTING};

verus! {

/// What `basic_toml::from_str` reads from a text as a table whose every value
/// is a list of (size, size, duration text) triples: each key with its list,
/// sizes as byte counts. `None` where the text is not such a document.
pub uninterp spec fn toml_document(text: Seq<char>) -> Option<Seq<(Seq<char>, Seq<(u64, u64, Seq<char>)>)>>;

/// A parsed document with its strings as character sequences.
pub open spec fn document_view(doc: Seq<(String, Vec<RawEntry>)>) -> Seq<(Seq<char>, Seq<(u64, u64, Seq<char>)>)> {
    doc.map_values(|t: (String, Vec<RawEntry>)| (t.0@, entries_view(t.1@)))
}

/// Relies on `basic_toml::from_str` into a `BTreeMap<String, Vec<(ByteSize,
/// ByteSize, String)>>`: it reads the text alone. A byte size is read by the
/// `Deserialize` of `bytesize::ByteSize`, from an integer or a text like "10MB".
/// The parser recurses once per level of nested arrays and inline tables and
/// once per part of a dotted key, with no limit of its own, so a text that
/// nests deeply enough would overflow the stack: the bound on nesting leaves
/// those texts out.
#[verifier::external_body]
fn parse_document(text: &str) -> (r: Result<Vec<(String, Vec<RawEntry>)>, String>)
    requires
        nesting_bound(text.spec_bytes()) <= MAX_NESTING,
    ensures
        r is Ok <==> toml_document(text@) is Some,
        r matches Ok(doc) ==> document_view(doc@) == toml_document(text@)->0,
{
    basic_toml::from_str::<BTreeMap<String, Vec<(ByteSize, ByteSize, String)>>>(text)
        .map(|m| m.into_iter().map(|(k, v)| (k, v.into_iter().map(|(l, u, d)| (l.0, u.0, d)).collect())).collect())
        .map_err(|e| e.to_string())
}

/// The key under which a configuration lists its entries.
pub open spec fn limits_key() -> Seq<char> {
    seq!['l', 'i', 'm', 'i', 't', 's']
}

/// The list under the first key of `doc` equal to `name`.
pub open spec fn table_named(doc: Seq<(Seq<char>, Seq<(u64, u64, Seq<char>)>)>, name: Seq<char>)
    -> Option<Seq<(u64, u64, Seq<char>)>>
    decreases doc.len(),
{
    if doc.len() == 0 {
        None
    } else if doc[0].0 == name {
        Some(doc[0].1)
    } else {
        table_named(doc.drop_first(), name)
    }
}

/// What a parsed document gives: `None` where it has no list of entries
/// under `limits`, else the outcome of validating that list.
pub open spec fn document_outcome(doc: Seq<(Seq<char>, Seq<(u64, u64, Seq<char>)>)>)
    -> Option<Result<Map<SizeRange, RetentionDuration>, Rejection>>
{
    match table_named(doc, limits_key()) {
        None => None,
        Some(entries) => Some(build_spec(entries)),
    }
}

/// What a configuration text gives: `None` where it nests deeper than
/// `MAX_NESTING` or is not a document with a list of entries under `limits`,
/// else the outcome of validating that list.
pub open spec fn toml_outcome(text: Seq<char>) -> Option<Result<Map<SizeRange, RetentionDuration>, Rejection>> {
    if nesting_bound(encode_utf8(text)) > MAX_NESTING {
        None
    } else {
        match toml_document(text) {
            None => None,
            Some(doc) => document_outcome(doc),
        }
    }
}

/// An outcome becomes a result: no outcome is a parse failure, with a
/// message that is not empty.
pub open spec fn loaded_as(r: Result<Config, Error>, outcome: Option<Result<Map<SizeRange, RetentionDuration>, Rejection>>) -> bool {
    match outcome {
        None => r matches Err(Error::ParseFailure(m)) && m@.len() > 0,
        Some(o) => built_as(r, o),
    }
}

/// Builds the policy from a parsed document, a list of keys each with its
/// list of entries: from the list under `limits`, which must be there.
pub fn from_document(doc: &[(String, Vec<RawEntry>)]) -> (r: Result<Config, Error>)
    ensures
        loaded_as(r, document_outcome(document_view(doc@))),
{
    let ghost dv = document_view(doc@);
    let key = "limits".to_owned();
    proof {
        reveal_strlit("limits");
        assert(key@ =~= limits_key());
    }
    let mut i: usize = 0;
    assert(dv.skip(0) =~= dv);
    while i < doc.len()
        invariant
            0 <= i <= doc.len(),
            dv == document_view(doc@),
            key@ == limits_key(),
            table_named(dv, limits_key()) == table_named(dv.skip(i as int), limits_key()),
        decreases doc.len() - i,
    {
        let ghost rest = dv.skip(i as int);
        assert(rest[0] == dv[i as int]);
        assert(rest.drop_first() =~= dv.skip(i + 1));
        if doc[i].0 == key {
            let entries = doc[i].1.as_slice();
            assert(entries@ == doc@[i as int].1@);
            assert(table_named(rest, limits_key()) == Some(entries_view(entries@)));
            return Config::build(entries);
        }
        i = i + 1;
    }
    assert(dv.skip(i as int).len() == 0);
    proof {
        reveal_strlit("missing field `limits`");
    }
    Err(Error::ParseFailure("missing field `limits`".to_owned()))
}

/// Parses the text of a TOML configuration, whose `limits` key lists
/// `[lower, upper, duration]` triples, and builds the policy from them.
/// Every top-level key must hold such a list: a configuration with any other
/// key (a string, a number, a `[section]` table) is a parse failure, and so is
/// one that nests deeper than `MAX_NESTING`, counting brackets and braces and
/// the dots of a key on one line.
pub fn from_toml(text: &str) -> (r: Result<Config, Error>)
    ensures
        loaded_as(r, toml_outcome(text@)),
{
    if nesting_of(text) > MAX_NESTING {
        proof {
            reveal_strlit("configuration text nests too deeply");
        }
        return Err(Error::ParseFailure("configuration text nests too deeply".to_owned()));
    }
    match parse_document(text) {
        Ok(doc) => from_document(doc.as_slice()),
        Err(msg) => {
            if msg.as_str().is_empty() {
                proof {
                    reveal_strlit("configuration text is not a TOML document of limits");
                }
                Err(Error::ParseFailure("configuration text is not a TOML document of limits".to_owned()))
            } else {
                Err(Error::ParseFailure(msg))
            }
        },
    }
}

/// The policy for a configuration that may be absent: the default policy
/// where there is no configuration, else the policy its text describes.
pub fn load(contents: Option<&str>) -> (r: Result<Config, Error>)
    ensures
        contents is None ==> (r matches Ok(c) && c@ == default_limits() && c.wf()),
        contents matches Some(text) ==> loaded_as(r, toml_outcome(text@)),
{
    match contents {
        None => Ok(Config::default()),
        Some(text) => from_toml(text),
    }
}

} // verus!
