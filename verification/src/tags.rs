//! What stands out in a report, in single words.
use crate::types::{AnalyzeResult, Report};
use vstd::prelude::*;

verus! {

/// The contents of a list of string slices.
pub open spec fn words(list: Seq<&'static str>) -> Seq<Seq<char>> {
    list.map_values(|s: &'static str| s@)
}

/// A list with one more word, where something was found.
pub open spec fn with_tag(list: Seq<Seq<char>>, found: bool, word: Seq<char>) -> Seq<Seq<char>> {
    if found {
        list.push(word)
    } else {
        list
    }
}

/// The words for what stands out in a report, in their fixed order.
pub open spec fn tags_of(r: Report) -> Seq<Seq<char>> {
    let list = with_tag(Seq::empty(), r.is_dotnet, ".NET"@);
    let list = with_tag(list, r.is_service, "Service"@);
    let list = with_tag(list, r.is_stub, "Stub"@);
    let list = with_tag(list, r.has_manifest, "Manifest"@);
    let list = with_tag(list, r.has_dialog, "DialogRes"@);
    let list = with_tag(list, r.has_icon, "Icon"@);
    with_tag(list, r.version is Some, "VersionInfo"@)
}

/// Adds a word to a list, where something was found.
fn add_tag(list: &mut Vec<&'static str>, found: bool, word: &'static str)
    ensures
        words(final(list)@) == with_tag(words(old(list)@), found, word@),
{
    if found {
        list.push(word);
        assert(words(list@) =~= words(old(list)@).push(word@));
    }
}

/// The words for what stands out in a report.
pub fn tags(r: &AnalyzeResult) -> (list: Vec<&'static str>)
    ensures
        words(list@) == tags_of(r@),
{
    let mut list: Vec<&'static str> = Vec::new();
    assert(words(list@) =~= Seq::empty());
    add_tag(&mut list, r.is_dotnet, ".NET");
    add_tag(&mut list, r.is_service, "Service");
    add_tag(&mut list, r.is_stub, "Stub");
    add_tag(&mut list, r.has_manifest, "Manifest");
    add_tag(&mut list, r.has_dialog, "DialogRes");
    add_tag(&mut list, r.has_icon, "Icon");
    add_tag(&mut list, r.version.is_some(), "VersionInfo");
    list
}

} // verus!
