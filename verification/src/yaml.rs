//! The version that a `meta.knack.yaml` states.
use vstd::prelude::*;

use crate::bom;
use crate::bom::strip_utf8_bom;
use crate::text;

verus! {

/// What `serde_yaml` reads at a key of a YAML document.
pub uninterp spec fn yaml_text(bytes: Seq<u8>, key: Seq<char>) -> Option<Seq<char>>;

/// `serde_yaml::from_slice` into a `serde_yaml::Value`, and of that value `get` with a key and then
/// `as_str`: the text at the key. There is none where the bytes are no YAML document, where the
/// document has no such key, and where it holds no string there.
#[verifier::external_body]
pub(crate) fn text_at(bytes: &[u8], key: &str) -> (r: Option<String>)
    ensures
        text::opt_text(r) == yaml_text(bytes@, key@),
{
    let parsed: serde_yaml::Value = serde_yaml::from_slice(bytes).ok()?;
    parsed.get(key)?.as_str().map(str::to_string)
}

/// The version that a `meta.knack.yaml` states, a leading BOM aside.
pub fn meta_version(meta: &[u8]) -> (r: Option<String>)
    ensures
        text::opt_text(r) == yaml_text(bom::without_bom(meta@), "version"@),
{
    text_at(strip_utf8_bom(meta), "version")
}

/// The version, or `0.0.0` where there is none.
pub open spec fn version_or_zero_of(version: Option<Seq<char>>) -> Seq<char> {
    match version {
        Some(v) => v,
        None => "0.0.0"@,
    }
}

/// The version, or `0.0.0` where there is none.
pub fn version_or_zero(version: Option<String>) -> (r: String)
    ensures
        r@ == version_or_zero_of(text::opt_text(version)),
{
    match version {
        Some(v) => v,
        None => "0.0.0".to_owned(),
    }
}

/// The version that the `meta.knack.yaml` of a registry copy states, or `0.0.0`.
pub open spec fn registry_version(meta: Option<Seq<u8>>) -> Seq<char> {
    match meta {
        Some(bytes) => version_or_zero_of(yaml_text(bom::without_bom(bytes), "version"@)),
        None => "0.0.0"@,
    }
}

/// The version that the `meta.knack.yaml` of a registry copy states, or `0.0.0` where there is no
/// such file to read, or no version in it.
pub fn read_meta_version(meta: &Option<Vec<u8>>) -> (r: String)
    ensures
        r@ == registry_version(
            match meta {
                Some(b) => Some(b@),
                None => None,
            },
        ),
{
    match meta {
        Some(bytes) => version_or_zero(meta_version(bytes.as_slice())),
        None => version_or_zero(None),
    }
}

/// The version of a registry copy is the one that its `meta.knack.yaml` states, a BOM before it or
/// not, and `0.0.0` where it states none.
pub proof fn registry_version_is_the_stated_one(meta: Seq<u8>)
    ensures
        registry_version(None) == "0.0.0"@,
        yaml_text(bom::without_bom(meta), "version"@) matches Some(v) ==> registry_version(Some(meta))
            == v,
        yaml_text(bom::without_bom(meta), "version"@) is None ==> registry_version(Some(meta))
            == "0.0.0"@,
        !bom::starts_with_bom(meta) ==> registry_version(
            Some(seq![0xefu8, 0xbbu8, 0xbfu8] + meta),
        ) == registry_version(Some(meta)),
{
    bom::only_one_bom_is_stripped(meta);
    if !bom::starts_with_bom(meta) {
        assert(bom::without_bom(meta) == meta);
    }
}

} // verus!
