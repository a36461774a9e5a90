//! Names the files in which plugins keep their JSON data.
use vstd::prelude::*;

use crate::error::Error;
use crate::manifest::{is_id_char, is_id_separator, is_valid_id};
use crate::text::{chars_of, concat2, concat4};

verus! {

pub open spec fn is_component_char(c: char) -> bool {
    ('a' <= c && c <= 'z') || ('A' <= c && c <= 'Z') || ('0' <= c && c <= '9') || c == '.' || c
        == '_' || c == '-'
}

/// Whether `value` can name a plugin's data directory or data file: 1 to 128
/// ASCII letters, digits, `.`, `_` or `-`.
pub open spec fn is_valid_component(value: Seq<char>) -> bool {
    &&& 0 < value.len() <= 128
    &&& forall|i: int| 0 <= i < value.len() ==> is_component_char(#[trigger] value[i])
}

/// Checks a plugin id or data key used as a file-name component.
pub fn validate_component(value: &str, label: &str) -> (r: Result<(), Error>)
    ensures
        is_valid_component(value@) ==> r is Ok,
        !is_valid_component(value@) ==> (r matches Err(Error::Config(m)) && m@ == "invalid "@
            + label@ + ": "@ + value@),
{
    let v = chars_of(value);
    let mut ok = v.len() > 0 && v.len() <= 128;
    let mut i: usize = 0;
    while ok && i < v.len()
        invariant
            v@ == value@,
            i <= v.len(),
            ok ==> 0 < v@.len() <= 128,
            ok ==> forall|j: int| 0 <= j < i ==> is_component_char(#[trigger] v@[j]),
            !ok ==> !is_valid_component(value@),
        decreases v.len() - i,
    {
        let c = v[i];
        if !(('a' <= c && c <= 'z') || ('A' <= c && c <= 'Z') || ('0' <= c && c <= '9') || c == '.'
            || c == '_' || c == '-') {
            ok = false;
            assert(!is_component_char(value@[i as int]));
        }
        i += 1;
    }
    if ok {
        Ok(())
    } else {
        Err(Error::Config(concat4("invalid ", label, ": ", value)))
    }
}

/// Where a plugin's value for `key` is stored, relative to the data root: the
/// plugin's directory and the file `<key>.json` in it.
pub fn data_location(plugin_id: &str, key: &str) -> (r: Result<(String, String), Error>)
    ensures
        !is_valid_component(plugin_id@) ==> (r matches Err(Error::Config(m)) && m@ == "invalid "@
            + "plugin id"@ + ": "@ + plugin_id@),
        is_valid_component(plugin_id@) && !is_valid_component(key@) ==> (r matches Err(
            Error::Config(m),
        ) && m@ == "invalid "@ + "plugin data key"@ + ": "@ + key@),
        is_valid_component(plugin_id@) && is_valid_component(key@) ==> (r matches Ok((d, f)) && d@
            == plugin_id@ && f@ == key@ + ".json"@),
{
    match validate_component(plugin_id, "plugin id") {
        Ok(()) => {},
        Err(e) => return Err(e),
    }
    match validate_component(key, "plugin data key") {
        Ok(()) => {},
        Err(e) => return Err(e),
    }
    Ok((plugin_id.to_owned(), concat2(key, ".json")))
}

/// A plugin id or data key is accepted exactly when it has 1 to 128
/// characters and each is an ASCII letter, an ASCII digit, `.`, `_` or `-`.
pub proof fn law_component_characters(value: Seq<char>)
    ensures
        is_valid_component(value) <==> (0 < value.len() <= 128 && forall|i: int|
            0 <= i < value.len() ==> (('a' <= #[trigger] value[i] && value[i] <= 'z') || ('A' <= value[i]
                && value[i] <= 'Z') || ('0' <= value[i] && value[i] <= '9') || value[i] == '.' || value[i]
                == '_' || value[i] == '-')),
{
}

/// Every plugin id that the manifest accepts and that fits in 128
/// characters can name the plugin's data directory.
pub proof fn law_plugin_ids_name_data(id: Seq<char>)
    requires
        is_valid_id(id),
        id.len() <= 128,
    ensures
        is_valid_component(id),
{
    assert forall|i: int| 0 <= i < id.len() implies is_component_char(#[trigger] id[i]) by {
        assert(is_id_char(id[i]) || is_id_separator(id[i]));
    }
}

} // verus!
