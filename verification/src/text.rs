//! Text as the analysis reads it: strings are sequences of characters, ordered
//! by the code points of their characters.
use vstd::prelude::*;

verus! {

/// The contents of a list of strings.
pub open spec fn texts(list: Seq<String>) -> Seq<Seq<char>> {
    list.map_values(|s: String| s@)
}

/// `text` is one of the strings of `list`.
pub open spec fn listed(list: Seq<&str>, text: Seq<char>) -> bool {
    exists|i: int| 0 <= i < list.len() && (#[trigger] list[i])@ == text
}

/// `part` occurs somewhere in `whole` as a run of consecutive characters.
pub open spec fn occurs_in(part: Seq<char>, whole: Seq<char>) -> bool {
    exists|at: int| occurs_at(part, whole, at)
}

/// `part` occurs in `whole` from the character at `at` on.
pub open spec fn occurs_at(part: Seq<char>, whole: Seq<char>, at: int) -> bool {
    &&& 0 <= at <= whole.len() - part.len()
    &&& whole.subrange(at, at + part.len()) == part
}

/// `a` and `b` agree on their first `at` characters, and `a` then ends or goes
/// on with the smaller character, while `b` goes on.
pub open spec fn parts_below(a: Seq<char>, b: Seq<char>, at: int) -> bool {
    &&& 0 <= at <= a.len()
    &&& at < b.len()
    &&& forall|j: int| 0 <= j < at ==> a[j] == b[j]
    &&& at == a.len() || a[at] < b[at]
}

/// `a` comes before `b` in dictionary order by code point.
pub open spec fn precedes(a: Seq<char>, b: Seq<char>) -> bool {
    exists|at: int| parts_below(a, b, at)
}

/// Each string comes before all later ones.
pub open spec fn strictly_ordered(list: Seq<Seq<char>>) -> bool {
    forall|i: int, j: int| 0 <= i < j < list.len() ==> precedes(list[i], list[j])
}

/// `sorted` holds the members of `list`, each once and in dictionary order.
pub open spec fn is_sorted_set_of(sorted: Seq<Seq<char>>, list: Seq<Seq<char>>) -> bool {
    &&& strictly_ordered(sorted)
    &&& forall|text: Seq<char>| sorted.contains(text) <==> list.contains(text)
}

/// The members of `list`, each once and in dictionary order.
pub open spec fn sorted_set(list: Seq<Seq<char>>) -> Seq<Seq<char>> {
    choose|sorted: Seq<Seq<char>>| is_sorted_set_of(sorted, list)
}

/// A character with the letters `A` to `Z` in lower case.
pub open spec fn ascii_lower(c: char) -> char {
    if 'A' <= c && c <= 'Z' {
        (c as int + 32) as char
    } else {
        c
    }
}

/// A text with the letters `A` to `Z` in lower case.
pub open spec fn with_ascii_lower(text: Seq<char>) -> Seq<char> {
    text.map_values(|c: char| ascii_lower(c))
}

/// All characters of a text are ASCII characters.
pub open spec fn is_ascii_text(text: Seq<char>) -> bool {
    forall|i: int| 0 <= i < text.len() ==> (#[trigger] text[i]) as int <= 127
}

/// The lower-case form of a text that holds other characters than those of ASCII, and no
/// letters from `A` to `Z`, as `str::to_lowercase` gives it.
pub uninterp spec fn lowercase(text: Seq<char>) -> Seq<char>;

/// The lower-case form of a text.
pub open spec fn lower_case(text: Seq<char>) -> Seq<char> {
    if is_ascii_text(text) {
        with_ascii_lower(text)
    } else {
        lowercase(with_ascii_lower(text))
    }
}

/// `str::to_lowercase`: of ASCII text the letters `A` to `Z` are mapped one for one, and all
/// other characters stay. The result for other text is a function of the text alone, and the
/// case of the letters `A` to `Z` in it does not matter: they are mapped to those from `a` to
/// `z`, and the one mapping that looks at its neighbours, that of a sigma at the end of a
/// word, finds a letter there either way. Which other characters are mapped, and to what, is
/// Unicode's and is not stated.
pub assume_specification[ str::to_lowercase ](s: &str) -> (lower: String)
    ensures
        lower@ == (if is_ascii_text(s@) {
            with_ascii_lower(s@)
        } else {
            lowercase(with_ascii_lower(s@))
        }),
;

/// The text that bytes stand for which are not UTF-8, as `String::from_utf8_lossy` reads
/// them.
pub uninterp spec fn utf8_lossy(bytes: Seq<u8>) -> Seq<char>;

/// The text that bytes stand for.
pub open spec fn text_of(bytes: Seq<u8>) -> Seq<char> {
    if vstd::utf8::valid_utf8(bytes) {
        vstd::utf8::decode_utf8(bytes)
    } else {
        utf8_lossy(bytes)
    }
}

/// `String::from_utf8_lossy`: valid UTF-8 is decoded as it stands. What takes the
/// place of invalid sequences is not stated, only that the bytes decide it.
#[verifier::external_body]
pub(crate) fn text_from_utf8_lossy(bytes: &[u8]) -> (text: String)
    ensures
        text@ == (if vstd::utf8::valid_utf8(bytes@) {
            vstd::utf8::decode_utf8(bytes@)
        } else {
            utf8_lossy(bytes@)
        }),
{
    String::from_utf8_lossy(bytes).into_owned()
}

/// Two texts that differ in the case of the letters `A` to `Z` alone have the same lower-case
/// form.
pub proof fn lemma_lower_case(a: Seq<char>, b: Seq<char>)
    requires
        with_ascii_lower(a) == with_ascii_lower(b),
    ensures
        lower_case(a) == lower_case(b),
{
    assert(a.len() == with_ascii_lower(a).len());
    assert(b.len() == with_ascii_lower(b).len());
    assert forall|i: int| 0 <= i < a.len() implies (a[i] as int <= 127 <==> b[i] as int <= 127) by {
        assert(with_ascii_lower(a)[i] == ascii_lower(a[i]));
        assert(with_ascii_lower(b)[i] == ascii_lower(b[i]));
    }
    assert(is_ascii_text(a) == is_ascii_text(b));
}

/// No string comes before itself.
pub proof fn lemma_precedes_irreflexive(a: Seq<char>)
    ensures
        !precedes(a, a),
{
}

/// The order is transitive.
pub proof fn lemma_precedes_transitive(a: Seq<char>, b: Seq<char>, c: Seq<char>)
    requires
        precedes(a, b),
        precedes(b, c),
    ensures
        precedes(a, c),
{
    let i = choose|at: int| parts_below(a, b, at);
    let j = choose|at: int| parts_below(b, c, at);
    let k = if i < j { i } else { j };
    assert(parts_below(a, c, k));
}

/// Any two different strings are ordered one way or the other.
pub proof fn lemma_precedes_total(a: Seq<char>, b: Seq<char>)
    ensures
        a == b || precedes(a, b) || precedes(b, a),
    decreases a.len(),
{
    if a.len() == 0 {
        if b.len() > 0 {
            assert(parts_below(a, b, 0));
        } else {
            assert(a =~= b);
        }
    } else if b.len() == 0 {
        assert(parts_below(b, a, 0));
    } else if a[0] < b[0] {
        assert(parts_below(a, b, 0));
    } else if b[0] < a[0] {
        assert(parts_below(b, a, 0));
    } else {
        let ra = a.drop_first();
        let rb = b.drop_first();
        lemma_precedes_total(ra, rb);
        assert(forall|n: int| 0 <= n < ra.len() ==> ra[n] == a[n + 1]);
        assert(forall|n: int| 0 <= n < rb.len() ==> rb[n] == b[n + 1]);
        if ra == rb {
            assert(a =~= b) by {
                assert forall|n: int| 0 <= n < a.len() implies a[n] == b[n] by {
                    if n > 0 {
                        assert(ra[n - 1] == rb[n - 1]);
                    }
                }
                assert(ra.len() == rb.len());
            }
        } else if precedes(ra, rb) {
            let at = choose|at: int| parts_below(ra, rb, at);
            assert(parts_below(a, b, at + 1)) by {
                assert forall|n: int| 0 <= n < at + 1 implies a[n] == b[n] by {
                    if n > 0 {
                        assert(ra[n - 1] == rb[n - 1]);
                    }
                }
            }
        } else {
            let at = choose|at: int| parts_below(rb, ra, at);
            assert(parts_below(b, a, at + 1)) by {
                assert forall|n: int| 0 <= n < at + 1 implies b[n] == a[n] by {
                    if n > 0 {
                        assert(rb[n - 1] == ra[n - 1]);
                    }
                }
            }
        }
    }
}

/// What a list holds once one more item is at its end.
pub proof fn lemma_push_contains<A>(list: Seq<A>, last: A, item: A)
    ensures
        list.push(last).contains(item) <==> list.contains(item) || item == last,
{
    if list.contains(item) {
        let i = choose|i: int| 0 <= i < list.len() && list[i] == item;
        assert(list.push(last)[i] == item);
    }
    if item == last {
        assert(list.push(last)[list.len() as int] == item);
    }
}

/// Two strictly ordered lists with the same members are equal.
pub proof fn lemma_sorted_set_unique(a: Seq<Seq<char>>, b: Seq<Seq<char>>)
    requires
        strictly_ordered(a),
        strictly_ordered(b),
        forall|text: Seq<char>| a.contains(text) <==> b.contains(text),
    ensures
        a == b,
    decreases a.len(),
{
    if a.len() == 0 {
        if b.len() > 0 {
            assert(b.contains(b[0]));
        }
        assert(a =~= b);
    } else if b.len() == 0 {
        assert(a.contains(a[0]));
    } else {
        // The last member of each list is the greatest of the shared members.
        let last = a.len() - 1;
        let end = b.len() - 1;
        assert(a.contains(a[last]));
        assert(b.contains(b[end]));
        let i = choose|i: int| 0 <= i < b.len() && b[i] == a[last];
        let j = choose|j: int| 0 <= j < a.len() && a[j] == b[end];
        if i < end && j < last {
            lemma_precedes_transitive(a[last], b[end], a[last]);
            lemma_precedes_irreflexive(a[last]);
        }
        assert(a[last] == b[end]);
        let ra = a.drop_last();
        let rb = b.drop_last();
        assert forall|text: Seq<char>| ra.contains(text) <==> rb.contains(text) by {
            lemma_drop_last_contains(a, text);
            lemma_drop_last_contains(b, text);
        }
        lemma_sorted_set_unique(ra, rb);
        assert(a =~= ra.push(a[last]));
        assert(b =~= rb.push(b[end]));
    }
}

/// A strictly ordered list without its last member holds all other members.
proof fn lemma_drop_last_contains(list: Seq<Seq<char>>, text: Seq<char>)
    requires
        strictly_ordered(list),
        list.len() > 0,
    ensures
        list.drop_last().contains(text) <==> list.contains(text) && text != list.last(),
{
    let rest = list.drop_last();
    if rest.contains(text) {
        let i = choose|i: int| 0 <= i < rest.len() && rest[i] == text;
        assert(list[i] == text);
        lemma_precedes_irreflexive(text);
    }
    if list.contains(text) && text != list.last() {
        let i = choose|i: int| 0 <= i < list.len() && list[i] == text;
        assert(rest[i] == text);
    }
}

/// What a list's sorted set is, once some list is known to be one.
pub proof fn lemma_sorted_set(list: Seq<Seq<char>>, sorted: Seq<Seq<char>>)
    requires
        is_sorted_set_of(sorted, list),
    ensures
        sorted_set(list) == sorted,
{
    assert(is_sorted_set_of(sorted_set(list), list));
    lemma_sorted_set_unique(sorted_set(list), sorted);
}

/// A strictly ordered list with one more member.
proof fn lemma_with_member(sorted: Seq<Seq<char>>, text: Seq<char>) -> (more: Seq<Seq<char>>)
    requires
        strictly_ordered(sorted),
    ensures
        strictly_ordered(more),
        forall|t: Seq<char>| more.contains(t) <==> sorted.contains(t) || t == text,
    decreases sorted.len(),
{
    if sorted.len() == 0 || precedes(sorted.last(), text) {
        let more = sorted.push(text);
        assert forall|i: int, j: int| 0 <= i < j < more.len() implies precedes(
            more[i],
            more[j],
        ) by {
            if j == sorted.len() && i < sorted.len() - 1 {
                lemma_precedes_transitive(sorted[i], sorted.last(), text);
            }
        }
        assert forall|t: Seq<char>| more.contains(t) <==> sorted.contains(t) || t == text by {
            lemma_push_contains(sorted, text, t);
        }
        more
    } else if sorted.last() == text {
        assert(sorted.contains(text));
        sorted
    } else {
        let last = sorted.last();
        lemma_precedes_total(last, text);
        let rest = lemma_with_member(sorted.drop_last(), text);
        let more = rest.push(last);
        assert forall|i: int, j: int| 0 <= i < j < more.len() implies precedes(
            more[i],
            more[j],
        ) by {
            if j == rest.len() {
                assert(rest.contains(rest[i]));
                if rest[i] != text {
                    let k = choose|k: int|
                        0 <= k < sorted.drop_last().len() && sorted.drop_last()[k] == rest[i];
                    assert(precedes(sorted[k], sorted[sorted.len() - 1]));
                }
            }
        }
        assert forall|t: Seq<char>| more.contains(t) <==> sorted.contains(t) || t == text by {
            lemma_push_contains(rest, last, t);
            lemma_drop_last_contains(sorted, t);
            assert(sorted.contains(last));
        }
        more
    }
}

/// Every list has a sorted set.
pub proof fn lemma_sorted_set_exists(list: Seq<Seq<char>>)
    ensures
        is_sorted_set_of(sorted_set(list), list),
    decreases list.len(),
{
    if list.len() == 0 {
        assert(is_sorted_set_of(list, list));
    } else {
        let rest = list.drop_last();
        lemma_sorted_set_exists(rest);
        let more = lemma_with_member(sorted_set(rest), list.last());
        assert(list =~= rest.push(list.last()));
        assert forall|t: Seq<char>| more.contains(t) <==> list.contains(t) by {
            lemma_push_contains(rest, list.last(), t);
        }
        assert(is_sorted_set_of(more, list));
    }
}

/// The characters of `s`, in order.
pub fn chars_of(s: &str) -> (chars: Vec<char>)
    ensures
        chars@ == s@,
{
    let mut chars: Vec<char> = Vec::new();
    for c in it: s.chars()
        invariant
            it.seq() == s@,
            chars@ == s@.take(it.index()),
    {
        chars.push(c);
    }
    chars
}

/// Whether two strings hold the same text.
pub fn same_text(a: &str, b: &str) -> (same: bool)
    ensures
        same == (a@ == b@),
{
    let x = a.as_bytes();
    let y = b.as_bytes();
    if x.len() != y.len() {
        return false;
    }
    let mut i: usize = 0;
    while i < x.len()
        invariant
            x@ == vstd::utf8::encode_utf8(a@),
            y@ == vstd::utf8::encode_utf8(b@),
            x.len() == y.len(),
            i <= x.len(),
            forall|j: int| 0 <= j < i ==> x@[j] == y@[j],
        decreases x.len() - i,
    {
        if x[i] != y[i] {
            return false;
        }
        i += 1;
    }
    proof {
        assert(x@ =~= y@);
        vstd::utf8::encode_utf8_decode_utf8(a@);
        vstd::utf8::encode_utf8_decode_utf8(b@);
    }
    true
}

/// Whether `text` is one of the strings of `list`.
pub fn is_listed(list: &[&str], text: &str) -> (found: bool)
    ensures
        found == listed(list@, text@),
{
    let mut i: usize = 0;
    while i < list.len()
        invariant
            i <= list.len(),
            forall|j: int| 0 <= j < i ==> (#[trigger] list@[j])@ != text@,
        decreases list.len() - i,
    {
        if same_text(list[i], text) {
            return true;
        }
        i += 1;
    }
    false
}

/// Whether `text` is one of the strings of `list`.
pub fn has_text(list: &Vec<String>, text: &str) -> (found: bool)
    ensures
        found == texts(list@).contains(text@),
{
    let mut i: usize = 0;
    while i < list.len()
        invariant
            i <= list.len(),
            forall|j: int| 0 <= j < i ==> texts(list@)[j] != text@,
        decreases list.len() - i,
    {
        if same_text(list[i].as_str(), text) {
            assert(texts(list@)[i as int] == text@);
            return true;
        }
        i += 1;
    }
    false
}

/// Whether `part` occurs in `whole`.
pub fn contains_text(whole: &str, part: &str) -> (found: bool)
    ensures
        found == occurs_in(part@, whole@),
{
    let w = chars_of(whole);
    let p = chars_of(part);
    if w.len() < p.len() {
        return false;
    }
    let mut at: usize = 0;
    while at <= w.len() - p.len()
        invariant
            w@ == whole@,
            p@ == part@,
            p.len() <= w.len(),
            at <= w.len() - p.len() + 1,
            forall|i: int| 0 <= i < at ==> !occurs_at(part@, whole@, i),
        decreases w.len() - at,
    {
        let mut k: usize = 0;
        while k < p.len() && w[at + k] == p[k]
            invariant
                w@ == whole@,
                p@ == part@,
                p.len() <= w.len(),
                at <= w.len() - p.len(),
                k <= p.len(),
                forall|j: int| 0 <= j < k ==> w@[at + j] == p@[j],
            decreases p.len() - k,
        {
            k += 1;
        }
        if k == p.len() {
            assert(whole@.subrange(at as int, at + part@.len()) =~= part@);
            assert(occurs_at(part@, whole@, at as int));
            return true;
        }
        assert(!occurs_at(part@, whole@, at as int)) by {
            assert(whole@.subrange(at as int, at + part@.len())[k as int] == w@[at + k]);
        }
        if at == w.len() - p.len() {
            return false;
        }
        at += 1;
    }
    false
}

/// Whether `a` comes before `b` in dictionary order.
pub fn comes_before(a: &str, b: &str) -> (before: bool)
    ensures
        before == precedes(a@, b@),
{
    let x = chars_of(a);
    let y = chars_of(b);
    let mut i: usize = 0;
    while i < x.len() && i < y.len() && x[i] == y[i]
        invariant
            x@ == a@,
            y@ == b@,
            i <= x.len(),
            i <= y.len(),
            forall|j: int| 0 <= j < i ==> x@[j] == y@[j],
        decreases x.len() - i,
    {
        i += 1;
    }
    let before = i < y.len() && (i == x.len() || x[i] < y[i]);
    proof {
        if before {
            assert(parts_below(a@, b@, i as int));
        } else if precedes(a@, b@) {
            let at = choose|at: int| parts_below(a@, b@, at);
            assert(at == i);
        }
    }
    before
}

/// Puts `text` at its place in a strictly ordered list, unless the list holds it.
fn insert_ordered(list: &mut Vec<String>, text: &String)
    requires
        strictly_ordered(texts(old(list)@)),
    ensures
        strictly_ordered(texts(final(list)@)),
        forall|t: Seq<char>| texts(final(list)@).contains(t) <==> texts(old(list)@).contains(t) || t
            == text@,
{
    let mut at: usize = 0;
    while at < list.len() && comes_before(list[at].as_str(), text.as_str())
        invariant
            at <= list.len(),
            forall|j: int| 0 <= j < at ==> precedes(texts(list@)[j], text@),
        decreases list.len() - at,
    {
        at += 1;
    }
    let ghost before = texts(list@);
    if at < list.len() && same_text(list[at].as_str(), text.as_str()) {
        assert(before[at as int] == text@);
        return ;
    }
    proof {
        if at < list.len() {
            lemma_precedes_total(before[at as int], text@);
        }
    }
    list.insert(at, text.clone());
    proof {
        let after = texts(list@);
        assert(after =~= before.insert(at as int, text@));
        assert forall|i: int, j: int| 0 <= i < j < after.len() implies precedes(
            after[i],
            after[j],
        ) by {
            if i == at && j > at + 1 {
                lemma_precedes_transitive(text@, before[at as int], before[j - 1]);
            } else if j == at && i < at {
            } else if i < at && j > at {
                assert(precedes(before[i], before[j - 1]));
            }
        }
        assert forall|t: Seq<char>| after.contains(t) <==> before.contains(t) || t == text@ by {
            if after.contains(t) {
                let k = choose|k: int| 0 <= k < after.len() && after[k] == t;
                if k < at {
                    assert(before[k] == t);
                } else if k > at {
                    assert(before[k - 1] == t);
                }
            }
            if before.contains(t) {
                let k = choose|k: int| 0 <= k < before.len() && before[k] == t;
                if k < at {
                    assert(after[k] == t);
                } else {
                    assert(after[k + 1] == t);
                }
            }
            assert(after[at as int] == text@);
        }
    }
}

/// The members of `list`, each once and in dictionary order.
pub fn sort_dedup(list: &Vec<String>) -> (sorted: Vec<String>)
    ensures
        texts(sorted@) == sorted_set(texts(list@)),
        is_sorted_set_of(texts(sorted@), texts(list@)),
{
    let mut sorted: Vec<String> = Vec::new();
    let mut i: usize = 0;
    while i < list.len()
        invariant
            i <= list.len(),
            is_sorted_set_of(texts(sorted@), texts(list@).take(i as int)),
        decreases list.len() - i,
    {
        let ghost before = texts(sorted@);
        let ghost done = texts(list@).take(i as int);
        let ghost next = texts(list@)[i as int];
        insert_ordered(&mut sorted, &list[i]);
        proof {
            assert(texts(list@).take(i + 1) =~= done.push(next));
            assert forall|text: Seq<char>| texts(sorted@).contains(text) <==> done.push(
                next,
            ).contains(text) by {
                lemma_push_contains(done, next, text);
            }
        }
        i += 1;
    }
    proof {
        assert(texts(list@).take(i as int) =~= texts(list@));
        lemma_sorted_set(texts(list@), texts(sorted@));
    }
    sorted
}

} // verus!
