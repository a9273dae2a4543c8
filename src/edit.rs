//! The edit engine: one whitelisted field of one source.
use crate::source::{has_name, SourceMap, SourceView};
use crate::weburl::{url_parse_of, ParsedUrl};
use vstd::prelude::*;

verus! {

/// The fields that can be edited.
#[derive(Debug, Clone, Copy, PartialEq, Eq, Structural)]
pub enum EditableSourceKey {
    Pinned,
    ArtifactUrlTemplate,
}

impl EditableSourceKey {
    /// The key as it is written on the command line.
    pub fn name(&self) -> (r: &'static str)
        ensures
            *self is Pinned ==> r@ == "pinned"@,
            *self is ArtifactUrlTemplate ==> r@ == "artifact_url_template"@,
    {
        match self {
            EditableSourceKey::Pinned => "pinned",
            EditableSourceKey::ArtifactUrlTemplate => "artifact_url_template",
        }
    }

    /// Whether a change of the field can leave the recorded hash stale.
    pub open spec fn affects_hash(&self) -> bool {
        *self is ArtifactUrlTemplate
    }
}

/// Why an edit was refused.
#[derive(Debug)]
pub enum EditError {
    NoSuchSource,
    /// A boolean field takes `true` or `false` only.
    InvalidBool,
    /// A URL field takes a URL only; the parser's message.
    InvalidUrl(String),
}

/// A boolean as `str::parse::<bool>` reads it.
pub open spec fn parse_bool(v: Seq<char>) -> Option<bool> {
    if v == "true"@ {
        Some(true)
    } else if v == "false"@ {
        Some(false)
    } else {
        None
    }
}

/// The source after setting `key` to `value`, where the value is valid.
pub open spec fn edited(s: SourceView, key: EditableSourceKey, value: Seq<char>) -> Option<SourceView> {
    match key {
        EditableSourceKey::Pinned => match parse_bool(value) {
            Some(b) => Some(SourceView { pinned: b, ..s }),
            None => None,
        },
        EditableSourceKey::ArtifactUrlTemplate => match url_parse_of(value) {
            Some(_) => Some(SourceView { artifact_url_template: value, ..s }),
            None => None,
        },
    }
}

/// Sets the field `key` of the source `name` to `value`. On success the
/// result says whether the recorded hash may now be stale.
pub fn edit_source(map: &mut SourceMap, name: &str, key: EditableSourceKey, value: &str) -> (r: Result<bool, EditError>)
    requires
        old(map).wf(),
    ensures
        final(map).wf(),
        !has_name(old(map)@, name@) ==> r matches Err(EditError::NoSuchSource),
        r is Err ==> final(map)@ == old(map)@,
        r matches Ok(stale) ==> stale == key.affects_hash(),
        forall|i: int|
            0 <= i < old(map)@.len() && old(map)@[i].0 == name@ ==> match edited(old(map)@[i].1, key, value@) {
                Some(s) => r is Ok && final(map)@ == old(map)@.update(i, (name@, s)),
                None => r is Err && !(r matches Err(EditError::NoSuchSource)),
            },
{
    let i = match map.position(name) {
        Some(i) => i,
        None => return Err(EditError::NoSuchSource),
    };
    proof {
        reveal_strlit("true");
        reveal_strlit("false");
    }
    let ghost before = map@;
    let (entry_name, mut source) = map.inner.remove(i);
    let result = match key {
        EditableSourceKey::Pinned => {
            if crate::text::str_eq(value, "true") {
                source.pinned = true;
                Ok(false)
            } else if crate::text::str_eq(value, "false") {
                source.pinned = false;
                Ok(false)
            } else {
                Err(EditError::InvalidBool)
            }
        },
        EditableSourceKey::ArtifactUrlTemplate => match ParsedUrl::parse(value) {
            Ok(_) => {
                source.artifact_url_template = value.to_owned();
                Ok(true)
            },
            Err(e) => Err(EditError::InvalidUrl(e)),
        },
    };
    map.inner.insert(i, (entry_name, source));
    proof {
        assert forall|j: int| 0 <= j < before.len() && before[j].0 == name@ implies j == i by {}
        if result is Err {
            assert(map@ =~= before);
        } else {
            assert(map@ =~= before.update(i as int, (name@, edited(before[i as int].1, key, value@)->0)));
        }
        assert forall|a: int, b: int| 0 <= a < b < map@.len() implies map@[a].0 != map@[b].0 by {
            assert(map@[a].0 == before[a].0);
            assert(map@[b].0 == before[b].0);
        }
    }
    result
}

} // verus!
