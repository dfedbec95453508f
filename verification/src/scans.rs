//! What a scan of imports finds: every import that counts, where it stands, and no other.
use crate::imports::{
    all_dll_names, all_services, all_windows, creates_window, dll_text,
    lemma_dll_names_push, lemma_filter_push, lemma_names_push, names_in, serves, services_of,
    windows_of, ImportedDll,
};
use crate::known::{
    is_service_function, is_window_function, law_service_function_names, law_window_imports,
};
use crate::pe::Import;
use crate::text::{lemma_push_contains, lower_case, text_of};
use vstd::prelude::*;

verus! {

/// The name of a DLL in lower case, where there is such a DLL and its name can be read.
pub open spec fn dll_named(dlls: Seq<ImportedDll>, i: int) -> Option<Seq<char>> {
    if 0 <= i < dlls.len() {
        match dlls[i].dll_name {
            Some(bytes) => Some(lower_case(text_of(bytes))),
            None => None,
        }
    } else {
        None
    }
}

/// The name of the function that an entry of a DLL's table is for, where there is such an
/// entry, it is one by name, and the DLL's own name can be read.
pub open spec fn function_named(dlls: Seq<ImportedDll>, i: int, k: int) -> Option<Seq<char>> {
    if dll_named(dlls, i) is None {
        None
    } else {
        match dlls[i].entries {
            Some(entries) => if 0 <= k < entries.len() {
                match entries[k] {
                    Import::ByName(bytes) => Some(text_of(bytes)),
                    _ => None,
                }
            } else {
                None
            },
            None => None,
        }
    }
}

/// The entry at a place is for a function of `user32.dll` that creates a window.
pub open spec fn is_window_import(dlls: Seq<ImportedDll>, place: (int, int)) -> bool {
    &&& dll_named(dlls, place.0) == Some("user32.dll"@)
    &&& function_named(dlls, place.0, place.1) matches Some(name) && is_window_function(name)
}

/// The entry at a place is for a function of a service.
pub open spec fn is_service_import(dlls: Seq<ImportedDll>, place: (int, int)) -> bool {
    function_named(dlls, place.0, place.1) matches Some(name) && is_service_function(name)
}

/// One place comes before another: in an earlier DLL, or earlier in the same one.
pub open spec fn comes_first(a: (int, int), b: (int, int)) -> bool {
    a.0 < b.0 || (a.0 == b.0 && a.1 < b.1)
}

/// The places stand in the order of the file, each once.
pub open spec fn in_file_order(places: Seq<(int, int)>) -> bool {
    forall|a: int, b: int|
        0 <= a < b < places.len() ==> comes_first(#[trigger] places[a], #[trigger] places[b])
}

/// Where the names stand that a filter keeps.
proof fn lemma_kept(entries: Seq<Import>, keep: spec_fn(Seq<char>) -> bool) -> (ks: Seq<int>)
    ensures
        ks.len() == names_in(entries).filter(keep).len(),
        forall|a: int, b: int| 0 <= a < b < ks.len() ==> #[trigger] ks[a] < #[trigger] ks[b],
        forall|j: int|
            #![trigger ks[j]]
            0 <= j < ks.len() ==> {
                &&& 0 <= ks[j] < entries.len()
                &&& entries[ks[j]] is ByName
                &&& text_of(entries[ks[j]]->ByName_0) == names_in(entries).filter(keep)[j]
                &&& keep(text_of(entries[ks[j]]->ByName_0))
            },
        forall|k: int|
            #![trigger entries[k]]
            0 <= k < entries.len() && entries[k] is ByName && keep(
                text_of(entries[k]->ByName_0),
            ) ==> ks.contains(k),
    decreases entries.len(),
{
    if entries.len() == 0 {
        assert(names_in(entries) =~= Seq::empty());
        assert(names_in(entries).filter(keep) =~= Seq::empty());
        Seq::empty()
    } else {
        let rest = entries.drop_last();
        let last = entries.last();
        let n = rest.len() as int;
        let before = lemma_kept(rest, keep);
        assert(entries =~= rest.push(last));
        lemma_names_push(rest, last);
        if last is ByName {
            lemma_filter_push(names_in(rest), text_of(last->ByName_0), keep);
        }
        let ks = if last is ByName && keep(text_of(last->ByName_0)) {
            before.push(n)
        } else {
            before
        };
        assert forall|j: int| #![trigger ks[j]] 0 <= j < ks.len() implies {
            &&& 0 <= ks[j] < entries.len()
            &&& entries[ks[j]] is ByName
            &&& text_of(entries[ks[j]]->ByName_0) == names_in(entries).filter(keep)[j]
            &&& keep(text_of(entries[ks[j]]->ByName_0))
        } by {
            if j < before.len() {
                assert(ks[j] == before[j]);
                assert(rest[before[j]] == entries[before[j]]);
            }
        }
        assert forall|k: int|
            #![trigger entries[k]]
            0 <= k < entries.len() && entries[k] is ByName && keep(
                text_of(entries[k]->ByName_0),
            ) implies ks.contains(k) by {
            if k < n {
                assert(rest[k] == entries[k]);
                assert(before.contains(k));
            }
            lemma_push_contains(before, n, k);
        }
        ks
    }
}

/// The places of one DLL's entries.
pub open spec fn places_in(i: int, ks: Seq<int>) -> Seq<(int, int)> {
    ks.map_values(|k: int| (i, k))
}

/// A scan lists the functions that create windows: each entry of `user32.dll` by the name of
/// one of them, once for each such entry, in the order of the file, and nothing else. The
/// result gives the places of the entries.
pub proof fn law_scanned_windows(dlls: Seq<ImportedDll>) -> (places: Seq<(int, int)>)
    ensures
        places.len() == all_windows(dlls).len(),
        in_file_order(places),
        forall|j: int|
            #![trigger places[j]]
            0 <= j < places.len() ==> is_window_import(dlls, places[j]) && function_named(
                dlls,
                places[j].0,
                places[j].1,
            ) == Some(all_windows(dlls)[j]),
        forall|place: (int, int)| #[trigger]
            is_window_import(dlls, place) ==> places.contains(place),
    decreases dlls.len(),
{
    if dlls.len() == 0 {
        Seq::empty()
    } else {
        let rest = dlls.drop_last();
        let last = dlls.last();
        let n = rest.len() as int;
        let before = law_scanned_windows(rest);
        let dll = dll_text(last.dll_name->0);
        let creates = |name: Seq<char>| creates_window(dll, name);
        assert forall|name: Seq<char>| creates_window(dll, name) <==> dll == "user32.dll"@
            && is_window_function(name) by {
            law_window_imports(dll, name);
        }
        assert(dll == lower_case(text_of(last.dll_name->0)));
        let ks = if last.dll_name is Some && last.entries is Some {
            lemma_kept(last.entries->0, creates)
        } else {
            Seq::empty()
        };
        let more = places_in(n, ks);
        let places = before + more;
        assert(windows_of(last).len() == ks.len()) by {
            if !(last.dll_name is Some && last.entries is Some) {
                assert(windows_of(last) =~= Seq::empty());
            }
        }
        assert(all_windows(dlls) == all_windows(rest) + windows_of(last));
        assert(forall|i: int| 0 <= i < n ==> rest[i] == dlls[i]);
        assert forall|j: int| #![trigger places[j]] 0 <= j < places.len() implies is_window_import(
            dlls,
            places[j],
        ) && function_named(dlls, places[j].0, places[j].1) == Some(all_windows(dlls)[j]) by {
            if j < before.len() {
                assert(places[j] == before[j]);
                assert(is_window_import(rest, before[j]));
            } else {
                let m = j - before.len();
                assert(places[j] == (n, ks[m]));
            }
        }
        assert forall|a: int, b: int| 0 <= a < b < places.len() implies comes_first(
            #[trigger] places[a],
            #[trigger] places[b],
        ) by {
            if a < before.len() {
                assert(places[a] == before[a]);
                assert(is_window_import(rest, before[a]));
                if b >= before.len() {
                    assert(places[b] == (n, ks[b - before.len()]));
                } else {
                    assert(places[b] == before[b]);
                }
            } else {
                assert(places[a] == (n, ks[a - before.len()]));
                assert(places[b] == (n, ks[b - before.len()]));
            }
        }
        assert forall|place: (int, int)| #[trigger] is_window_import(
            dlls,
            place,
        ) implies places.contains(place) by {
            if place.0 < n {
                assert(is_window_import(rest, place));
                let j = choose|j: int| 0 <= j < before.len() && before[j] == place;
                assert(places[j] == place);
            } else {
                let entries = last.entries->0;
                assert(entries[place.1] is ByName);
                assert(ks.contains(place.1));
                let m = choose|m: int| 0 <= m < ks.len() && ks[m] == place.1;
                assert(places[before.len() + m] == place);
            }
        }
        places
    }
}

/// A scan lists the functions of a service: each entry by the name of one of them, whatever
/// its DLL, once for each such entry, in the order of the file, and nothing else. The result
/// gives the places of the entries.
pub proof fn law_scanned_services(dlls: Seq<ImportedDll>) -> (places: Seq<(int, int)>)
    ensures
        places.len() == all_services(dlls).len(),
        in_file_order(places),
        forall|j: int|
            #![trigger places[j]]
            0 <= j < places.len() ==> is_service_import(dlls, places[j]) && function_named(
                dlls,
                places[j].0,
                places[j].1,
            ) == Some(all_services(dlls)[j]),
        forall|place: (int, int)| #[trigger]
            is_service_import(dlls, place) ==> places.contains(place),
    decreases dlls.len(),
{
    if dlls.len() == 0 {
        Seq::empty()
    } else {
        let rest = dlls.drop_last();
        let last = dlls.last();
        let n = rest.len() as int;
        let before = law_scanned_services(rest);
        let starts = |name: Seq<char>| serves(name);
        assert forall|name: Seq<char>| serves(name) <==> is_service_function(name) by {
            law_service_function_names(name);
        }
        let ks = if last.dll_name is Some && last.entries is Some {
            lemma_kept(last.entries->0, starts)
        } else {
            Seq::empty()
        };
        let more = places_in(n, ks);
        let places = before + more;
        assert(services_of(last).len() == ks.len()) by {
            if !(last.dll_name is Some && last.entries is Some) {
                assert(services_of(last) =~= Seq::empty());
            }
        }
        assert(all_services(dlls) == all_services(rest) + services_of(last));
        assert(forall|i: int| 0 <= i < n ==> rest[i] == dlls[i]);
        assert forall|j: int| #![trigger places[j]] 0 <= j < places.len() implies is_service_import(
            dlls,
            places[j],
        ) && function_named(dlls, places[j].0, places[j].1) == Some(all_services(dlls)[j]) by {
            if j < before.len() {
                assert(places[j] == before[j]);
                assert(is_service_import(rest, before[j]));
            } else {
                let m = j - before.len();
                assert(places[j] == (n, ks[m]));
            }
        }
        assert forall|a: int, b: int| 0 <= a < b < places.len() implies comes_first(
            #[trigger] places[a],
            #[trigger] places[b],
        ) by {
            if a < before.len() {
                assert(places[a] == before[a]);
                assert(is_service_import(rest, before[a]));
                if b >= before.len() {
                    assert(places[b] == (n, ks[b - before.len()]));
                } else {
                    assert(places[b] == before[b]);
                }
            } else {
                assert(places[a] == (n, ks[a - before.len()]));
                assert(places[b] == (n, ks[b - before.len()]));
            }
        }
        assert forall|place: (int, int)| #[trigger] is_service_import(
            dlls,
            place,
        ) implies places.contains(place) by {
            if place.0 < n {
                assert(is_service_import(rest, place));
                let j = choose|j: int| 0 <= j < before.len() && before[j] == place;
                assert(places[j] == place);
            } else {
                let entries = last.entries->0;
                assert(entries[place.1] is ByName);
                assert(ks.contains(place.1));
                let m = choose|m: int| 0 <= m < ks.len() && ks[m] == place.1;
                assert(places[before.len() + m] == place);
            }
        }
        places
    }
}

/// A scan lists the DLLs: the name in lower case of each one whose name can be read, in the
/// order of the file, and nothing else. The result gives the places of the DLLs.
pub proof fn law_scanned_dlls(dlls: Seq<ImportedDll>) -> (places: Seq<int>)
    ensures
        places.len() == all_dll_names(dlls).len(),
        forall|a: int, b: int|
            0 <= a < b < places.len() ==> #[trigger] places[a] < #[trigger] places[b],
        forall|j: int|
            #![trigger places[j]]
            0 <= j < places.len() ==> dll_named(dlls, places[j]) == Some(all_dll_names(dlls)[j]),
        forall|i: int| #[trigger] dll_named(dlls, i) is Some ==> places.contains(i),
    decreases dlls.len(),
{
    if dlls.len() == 0 {
        assert(all_dll_names(dlls) =~= Seq::empty());
        Seq::empty()
    } else {
        let rest = dlls.drop_last();
        let last = dlls.last();
        let n = rest.len() as int;
        let before = law_scanned_dlls(rest);
        assert(dlls =~= rest.push(last));
        lemma_dll_names_push(rest, last);
        let places = if last.dll_name is Some {
            before.push(n)
        } else {
            before
        };
        assert forall|j: int| #![trigger places[j]] 0 <= j < places.len() implies dll_named(
            dlls,
            places[j],
        ) == Some(all_dll_names(dlls)[j]) by {
            if j < before.len() {
                assert(places[j] == before[j]);
                assert(dll_named(rest, before[j]) is Some);
            }
        }
        assert forall|a: int, b: int| 0 <= a < b < places.len() implies #[trigger] places[a]
            < #[trigger] places[b] by {
            assert(places[a] == before[a]);
            assert(dll_named(rest, before[a]) is Some);
            if b < before.len() {
                assert(places[b] == before[b]);
            }
        }
        assert forall|i: int| #[trigger] dll_named(dlls, i) is Some implies places.contains(i) by {
            if i < n {
                assert(dll_named(rest, i) is Some);
                assert(before.contains(i));
            }
            lemma_push_contains(before, n, i);
        }
        places
    }
}

/// What is noted of one DLL is what is noted of a table with that DLL alone.
pub proof fn law_one_dll(dll: ImportedDll)
    ensures
        windows_of(dll) == all_windows(seq![dll]),
        services_of(dll) == all_services(seq![dll]),
{
    let one = seq![dll];
    assert(one.drop_last() =~= Seq::empty());
    assert(all_windows(one.drop_last()) + windows_of(dll) =~= windows_of(dll));
    assert(all_services(one.drop_last()) + services_of(dll) =~= services_of(dll));
}

} // verus!
