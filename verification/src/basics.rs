//! What the analysis takes texts, lists and labels to be.
use crate::buffer::{le16, le32};
use crate::imports::{
    all_dll_names, all_services, all_windows, dll_text, dlls_in, noted, ImportDescriptor,
    ImportedDll,
};
use crate::pe::{words_in, Import, ImportEntry};
use crate::tags::{tags_of, with_tag, words};
use crate::text::{
    lemma_precedes_irreflexive, lemma_precedes_transitive, lemma_push_contains, listed,
    lower_case, lowercase, occurs_at, occurs_in, parts_below, precedes, strictly_ordered,
    text_of, texts, utf8_lossy, with_ascii_lower,
};
use crate::types::{AnalyzeResult, Classification, Report, Subsystem, VersionSummary};
use vstd::prelude::*;

verus! {

/// A part occurs in a text exactly where the text is something, the part, and something more.
pub proof fn law_occurs(part: Seq<char>, whole: Seq<char>)
    ensures
        occurs_in(part, whole) <==> exists|before: Seq<char>, after: Seq<char>|
            whole == #[trigger] ((before + part) + after),
{
    if occurs_in(part, whole) {
        let at = choose|at: int| occurs_at(part, whole, at);
        let before = whole.subrange(0, at);
        let after = whole.subrange(at + part.len(), whole.len() as int);
        assert(whole.subrange(at, at + part.len()) == part);
        assert forall|i: int| 0 <= i < whole.len() implies whole[i] == ((before + part)
            + after)[i] by {
            if at <= i < at + part.len() {
                assert(whole.subrange(at, at + part.len())[i - at] == part[i - at]);
            }
        }
        assert(whole =~= (before + part) + after);
    }
    if exists|before: Seq<char>, after: Seq<char>| whole == #[trigger] ((before + part) + after) {
        let (before, after) = choose|before: Seq<char>, after: Seq<char>|
            whole == #[trigger] ((before + part) + after);
        let at = before.len() as int;
        assert(whole.subrange(at, at + part.len()) =~= part);
        assert(occurs_at(part, whole, at));
    }
}

/// A text comes before all texts that it starts, and of two texts that part somewhere the one
/// that goes on with the smaller character comes first. The order is strict.
pub proof fn law_order(
    start: Seq<char>,
    smaller: char,
    greater: char,
    a: Seq<char>,
    b: Seq<char>,
)
    ensures
        a.len() > 0 ==> precedes(start, start + a),
        smaller < greater ==> precedes(start.push(smaller) + a, start.push(greater) + b),
        !(precedes(a, b) && precedes(b, a)),
        !precedes(a, a),
{
    if a.len() > 0 {
        assert(parts_below(start, start + a, start.len() as int));
    }
    if smaller < greater {
        assert(parts_below(
            start.push(smaller) + a,
            start.push(greater) + b,
            start.len() as int,
        ));
    }
    lemma_precedes_irreflexive(a);
    if precedes(a, b) && precedes(b, a) {
        lemma_precedes_transitive(a, b, a);
    }
}

/// A list is in order where each text comes before the later ones: one more text leaves it so
/// exactly where all the others come before that text.
pub proof fn law_ordered(list: Seq<Seq<char>>, last: Seq<char>)
    ensures
        strictly_ordered(Seq::<Seq<char>>::empty()),
        strictly_ordered(list.push(last)) <==> strictly_ordered(list) && forall|i: int|
            0 <= i < list.len() ==> precedes(#[trigger] list[i], last),
{
    let more = list.push(last);
    if strictly_ordered(more) {
        assert forall|i: int, j: int| 0 <= i < j < list.len() implies precedes(
            list[i],
            list[j],
        ) by {
            assert(precedes(more[i], more[j]));
        }
        assert forall|i: int| 0 <= i < list.len() implies precedes(#[trigger] list[i], last) by {
            assert(precedes(more[i], more[list.len() as int]));
        }
    }
}

/// A list lists what it is made of: nothing where it is empty, and with one more string that
/// string too.
pub proof fn law_listed(list: Seq<&str>, last: &str, text: Seq<char>)
    ensures
        !listed(Seq::<&str>::empty(), text),
        listed(list.push(last), text) <==> listed(list, text) || last@ == text,
{
    if listed(list, text) {
        let i = choose|i: int| 0 <= i < list.len() && (#[trigger] list[i])@ == text;
        assert(list.push(last)[i]@ == text);
    }
    if last@ == text {
        assert(list.push(last)[list.len() as int]@ == text);
    }
    if listed(list.push(last), text) {
        let more = list.push(last);
        let i = choose|i: int| 0 <= i < more.len() && (#[trigger] more[i])@ == text;
        if i < list.len() {
            assert(list[i]@ == text);
        }
    }
}

/// The lower-case form of ASCII text has the same length, and differs only in that the
/// letters `A` to `Z` are those thirty-two further on. Other text is for `str::to_lowercase`.
pub proof fn law_lower_case(text: Seq<char>)
    ensures
        (forall|i: int| 0 <= i < text.len() ==> (#[trigger] text[i]) as int <= 127) ==> {
            &&& lower_case(text).len() == text.len()
            &&& forall|i: int|
                0 <= i < text.len() ==> (#[trigger] lower_case(text)[i]) as int == (if 65
                    <= text[i] as int <= 90 {
                    text[i] as int + 32
                } else {
                    text[i] as int
                })
        },
        (exists|i: int| 0 <= i < text.len() && (#[trigger] text[i]) as int > 127)
            ==> lower_case(text) == lowercase(with_ascii_lower(text)),
{
}

/// The text of bytes in UTF-8 is the one that is encoded so. Other bytes are for
/// `String::from_utf8_lossy`. The name of a DLL is its text in lower case.
pub proof fn law_text_of(bytes: Seq<u8>)
    ensures
        vstd::utf8::valid_utf8(bytes) ==> vstd::utf8::encode_utf8(text_of(bytes)) == bytes,
        !vstd::utf8::valid_utf8(bytes) ==> text_of(bytes) == utf8_lossy(bytes),
        dll_text(bytes) == lower_case(text_of(bytes)),
{
    if vstd::utf8::valid_utf8(bytes) {
        vstd::utf8::decode_utf8_encode_utf8(bytes);
    }
}

/// Two bytes make a 16-bit number, low byte first, and four a 32-bit number.
pub proof fn law_numbers(bytes: Seq<u8>, at: int)
    ensures
        le16(bytes, at) == bytes[at] + 256 * bytes[at + 1],
        le32(bytes, at) == bytes[at] + 256 * bytes[at + 1] + 65536 * bytes[at + 2] + 16777216
            * bytes[at + 3],
        words_in(bytes).len() == bytes.len() / 2,
        0 <= at < bytes.len() / 2 ==> words_in(bytes)[at] == bytes[2 * at] + 256 * bytes[2 * at
            + 1],
{
}

/// The number of a subsystem, and the label of each.
pub proof fn law_subsystems(v: u16)
    ensures
        Subsystem::numbered(1) == Subsystem::Native,
        Subsystem::numbered(2) == Subsystem::Gui,
        Subsystem::numbered(3) == Subsystem::Console,
        v == 0 || v > 3 ==> Subsystem::numbered(v) == Subsystem::Other(v),
        Subsystem::Gui.label() == "GUI"@,
        Subsystem::Console.label() == "Console"@,
        Subsystem::Native.label() == "Native"@,
        Subsystem::Other(v).label() == "Other"@,
{
}

/// The label of each class.
pub proof fn law_class_labels(class: Classification)
    ensures
        class == Classification::Portable ==> class.label() == "Portable"@,
        class == Classification::Installer ==> class.label() == "Installer"@,
        class == Classification::Uninstaller ==> class.label() == "Uninstaller"@,
        class == Classification::SfxArchive ==> class.label() == "SFX"@,
        class == Classification::Launcher ==> class.label() == "Launcher"@,
        class == Classification::Service ==> class.label() == "Service"@,
        class == Classification::DotNet ==> class.label() == ".NET"@,
        class == Classification::WebView ==> class.label() == "WebView"@,
        class == Classification::ConsoleTool ==> class.label() == "Console"@,
        class == Classification::Other ==> class.label() == "Other"@,
{
}

/// What stands for a result in a statement says all that the result does.
pub proof fn law_views(r: AnalyzeResult, summary: VersionSummary, list: Seq<String>)
    ensures
        r@.subsystem == r.subsystem,
        r@.classification == r.classification,
        r@.has_window == r.has_window,
        r@.has_icon == r.has_icon,
        r@.is_dotnet == r.is_dotnet,
        r@.is_service == r.is_service,
        r@.is_stub == r.is_stub,
        r@.has_manifest == r.has_manifest,
        r@.has_dialog == r.has_dialog,
        r.version is Some <==> r@.version is Some,
        r.version matches Some(v) ==> r@.version == Some(v@),
        r@.window_funcs == texts(r.window_funcs@),
        r@.all_dlls == texts(r.all_dlls@),
        r@.core_dlls == texts(r.core_dlls@),
        texts(list).len() == list.len(),
        forall|i: int| 0 <= i < list.len() ==> #[trigger] texts(list)[i] == list[i]@,
        summary.original_filename is Some <==> summary@.original_filename is Some,
        summary.original_filename matches Some(s) ==> summary@.original_filename == Some(s@),
        summary.file_description is Some <==> summary@.file_description is Some,
        summary.file_description matches Some(s) ==> summary@.file_description == Some(s@),
        summary.company_name is Some <==> summary@.company_name is Some,
        summary.company_name matches Some(s) ==> summary@.company_name == Some(s@),
        summary.product_name is Some <==> summary@.product_name is Some,
        summary.product_name matches Some(s) ==> summary@.product_name == Some(s@),
        summary.file_version is Some <==> summary@.file_version is Some,
        summary.file_version matches Some(s) ==> summary@.file_version == Some(s@),
{
}

/// What stands for an import descriptor in a statement says all that the descriptor does.
pub proof fn law_import_views(desc: ImportDescriptor)
    ensures
        desc.dll_name is Some <==> desc@.dll_name is Some,
        desc.dll_name matches Some(name) ==> desc@.dll_name == Some(name@),
        desc.entries is Some <==> desc@.entries is Some,
        desc.entries matches Some(entries) ==> {
            &&& (desc@.entries->0).len() == entries@.len()
            &&& forall|k: int|
                #![trigger entries@[k]]
                0 <= k < entries@.len() ==> match entries@[k] {
                    ImportEntry::ByName(name) => (desc@.entries->0)[k] == Import::ByName(name@),
                    ImportEntry::ByOrdinal(n) => (desc@.entries->0)[k] == Import::ByOrdinal(n),
                    ImportEntry::Unreadable => (desc@.entries->0)[k] == Import::Unreadable,
                }
        },
{
}

/// What stands for a list in a statement has one member for each member of the list.
pub proof fn law_list_views(descs: Seq<ImportDescriptor>, list: Seq<&'static str>)
    ensures
        dlls_in(descs).len() == descs.len(),
        forall|i: int| 0 <= i < descs.len() ==> #[trigger] dlls_in(descs)[i] == descs[i]@,
        words(list).len() == list.len(),
        forall|i: int| 0 <= i < list.len() ==> #[trigger] words(list)[i] == list[i]@,
{
}

/// A scan of an optional table adds to each list what the table gives, and nothing without a
/// table.
pub proof fn law_noted(
    dlls: Option<Seq<ImportedDll>>,
    windows: (Seq<String>, Seq<String>),
    services: (Seq<String>, Seq<String>),
    names: (Seq<String>, Seq<String>),
)
    requires
        noted(dlls, windows, services, names),
    ensures
        dlls is None ==> texts(windows.1) == texts(windows.0) && texts(services.1) == texts(
            services.0,
        ) && texts(names.1) == texts(names.0),
        dlls matches Some(found) ==> {
            &&& texts(windows.1) == texts(windows.0) + all_windows(found)
            &&& texts(services.1) == texts(services.0) + all_services(found)
            &&& texts(names.1) == texts(names.0) + all_dll_names(found)
        },
{
    let none: Seq<ImportedDll> = Seq::empty();
    assert(all_dll_names(none) =~= Seq::empty());
    if dlls is None {
        assert(texts(windows.1) =~= texts(windows.0));
        assert(texts(services.1) =~= texts(services.0));
        assert(texts(names.1) =~= texts(names.0));
    }
}

/// The place of a word among all words for what stands out in a report.
pub open spec fn tag_rank(word: Seq<char>) -> int {
    if word == ".NET"@ {
        1
    } else if word == "Service"@ {
        2
    } else if word == "Stub"@ {
        3
    } else if word == "Manifest"@ {
        4
    } else if word == "DialogRes"@ {
        5
    } else if word == "Icon"@ {
        6
    } else if word == "VersionInfo"@ {
        7
    } else {
        0
    }
}

/// A report has just the words for what stands out in it, each once and in their order.
pub proof fn law_tags(r: Report)
    ensures
        tags_of(r).contains(".NET"@) <==> r.is_dotnet,
        tags_of(r).contains("Service"@) <==> r.is_service,
        tags_of(r).contains("Stub"@) <==> r.is_stub,
        tags_of(r).contains("Manifest"@) <==> r.has_manifest,
        tags_of(r).contains("DialogRes"@) <==> r.has_dialog,
        tags_of(r).contains("Icon"@) <==> r.has_icon,
        tags_of(r).contains("VersionInfo"@) <==> r.version is Some,
        forall|j: int| 0 <= j < tags_of(r).len() ==> tag_rank(#[trigger] tags_of(r)[j]) > 0,
        forall|a: int, b: int|
            0 <= a < b < tags_of(r).len() ==> tag_rank(#[trigger] tags_of(r)[a]) < tag_rank(
                #[trigger] tags_of(r)[b],
            ),
{
    lemma_tag_ranks();
    let list0 = Seq::<Seq<char>>::empty();
    let list1 = with_tag(list0, r.is_dotnet, ".NET"@);
    let list2 = with_tag(list1, r.is_service, "Service"@);
    let list3 = with_tag(list2, r.is_stub, "Stub"@);
    let list4 = with_tag(list3, r.has_manifest, "Manifest"@);
    let list5 = with_tag(list4, r.has_dialog, "DialogRes"@);
    let list6 = with_tag(list5, r.has_icon, "Icon"@);
    lemma_tag_step(list0, r.is_dotnet, ".NET"@, 1);
    lemma_tag_step(list1, r.is_service, "Service"@, 2);
    lemma_tag_step(list2, r.is_stub, "Stub"@, 3);
    lemma_tag_step(list3, r.has_manifest, "Manifest"@, 4);
    lemma_tag_step(list4, r.has_dialog, "DialogRes"@, 5);
    lemma_tag_step(list5, r.has_icon, "Icon"@, 6);
    lemma_tag_step(list6, r.version is Some, "VersionInfo"@, 7);
}

/// A list of words in their order, all of them below a rank.
pub open spec fn is_tag_list(list: Seq<Seq<char>>, below: int) -> bool {
    &&& forall|j: int| 0 <= j < list.len() ==> 0 < tag_rank(#[trigger] list[j]) < below
    &&& forall|a: int, b: int|
        0 <= a < b < list.len() ==> tag_rank(#[trigger] list[a]) < tag_rank(#[trigger] list[b])
}

/// A list of words with one more.
proof fn lemma_tag_step(list: Seq<Seq<char>>, found: bool, word: Seq<char>, rank: int)
    requires
        rank > 0,
        tag_rank(word) == rank,
        is_tag_list(list, rank),
    ensures
        is_tag_list(with_tag(list, found, word), rank + 1),
        with_tag(list, found, word).contains(word) <==> found,
        forall|other: Seq<char>|
            #![trigger list.contains(other)]
            #![trigger with_tag(list, found, word).contains(other)]
            other != word ==> (with_tag(list, found, word).contains(other)
                <==> list.contains(other)),
{
    let more = with_tag(list, found, word);
    if found {
        assert forall|other: Seq<char>| more.contains(other) <==> list.contains(other) || other
            == word by {
            lemma_push_contains(list, word, other);
        }
    } else if list.contains(word) {
        let j = choose|j: int| 0 <= j < list.len() && list[j] == word;
        assert(tag_rank(list[j]) < rank);
    }
}

/// The words have different places.
proof fn lemma_tag_ranks()
    ensures
        tag_rank(".NET"@) == 1,
        tag_rank("Service"@) == 2,
        tag_rank("Stub"@) == 3,
        tag_rank("Manifest"@) == 4,
        tag_rank("DialogRes"@) == 5,
        tag_rank("Icon"@) == 6,
        tag_rank("VersionInfo"@) == 7,
{
    reveal_strlit(".NET");
    reveal_strlit("Service");
    reveal_strlit("Stub");
    reveal_strlit("Manifest");
    reveal_strlit("DialogRes");
    reveal_strlit("Icon");
    reveal_strlit("VersionInfo");
    assert(".NET"@[0] == '.');
    assert("Service"@[0] == 'S' && "Service"@.len() == 7);
    assert("Stub"@[0] == 'S' && "Stub"@.len() == 4);
    assert("Manifest"@[0] == 'M');
    assert("DialogRes"@[0] == 'D');
    assert("Icon"@[0] == 'I');
    assert("VersionInfo"@[0] == 'V');
}

} // verus!
