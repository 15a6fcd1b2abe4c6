//! The two pieces of the WoW client's own state the Settings window prefills
//! from: the login region (`SET portal "EU"` in `WTF/Config.wtf`) and the realm
//! names the player has characters on. Reading the files is the caller's.
use vstd::prelude::*;
use crate::text::{chars_of, push_char, is_whitespace, is_whitespace_spec, trim_bounds, trim_seq,
    ascii_lower, ascii_lower_char};

verus! {

/// The characters of `s` before its first newline.
pub open spec fn line_len(s: Seq<char>) -> nat
    decreases s.len(),
{
    if s.len() == 0 || s[0] == '\n' {
        0
    } else {
        1 + line_len(s.drop_first())
    }
}

/// The characters of `s` before its first whitespace.
pub open spec fn word_len(s: Seq<char>) -> nat
    decreases s.len(),
{
    if s.len() == 0 || is_whitespace_spec(s[0]) {
        0
    } else {
        1 + word_len(s.drop_first())
    }
}

/// `s` without its leading double quotes.
pub open spec fn trim_quote_start(s: Seq<char>) -> Seq<char>
    decreases s.len(),
{
    if s.len() > 0 && s[0] == '"' {
        trim_quote_start(s.drop_first())
    } else {
        s
    }
}

/// `s` without its trailing double quotes.
pub open spec fn trim_quote_end(s: Seq<char>) -> Seq<char>
    decreases s.len(),
{
    if s.len() > 0 && s.last() == '"' {
        trim_quote_end(s.drop_last())
    } else {
        s
    }
}

/// `str::trim_matches('"')`.
pub open spec fn trim_quotes(s: Seq<char>) -> Seq<char> {
    trim_quote_end(trim_quote_start(s))
}

pub proof fn lemma_line_len_bound(s: Seq<char>)
    ensures
        line_len(s) <= s.len(),
        line_len(s) < s.len() ==> s[line_len(s) as int] == '\n',
        forall|i: int| 0 <= i < line_len(s) ==> s[i] != '\n',
    decreases s.len(),
{
    if s.len() > 0 && s[0] != '\n' {
        lemma_line_len_bound(s.drop_first());
        assert forall|i: int| 0 <= i < line_len(s) implies s[i] != '\n' by {
            if i > 0 {
                assert(s.drop_first()[i - 1] == s[i]);
            }
        }
    }
}

pub proof fn lemma_word_len_bound(s: Seq<char>)
    ensures
        word_len(s) <= s.len(),
    decreases s.len(),
{
    if s.len() > 0 && !is_whitespace_spec(s[0]) {
        lemma_word_len_bound(s.drop_first());
    }
}

/// What one line of Config.wtf says about the portal: `None` when the line
/// is not the `portal` setting (read on), otherwise the answer, which is
/// `None` for a setting with no value.
pub open spec fn line_portal(line: Seq<char>) -> Option<Option<Seq<char>>> {
    let t = trim_seq(line);
    if !(t.len() >= 4 && t[0] == 'S' && t[1] == 'E' && t[2] == 'T' && t[3] == ' ') {
        None
    } else {
        let rest = t.skip(4);
        let w = word_len(rest);
        if rest.take(w as int) != seq!['p', 'o', 'r', 't', 'a', 'l'] {
            None
        } else if w >= rest.len() {
            Some(None)
        } else {
            let value = trim_seq(trim_quotes(trim_seq(rest.skip(w + 1int))));
            if value.len() == 0 {
                Some(None)
            } else {
                Some(Some(ascii_lower(value)))
            }
        }
    }
}

/// The login region Config.wtf declares: the first `SET portal` line decides,
/// its value trimmed of whitespace and quotes and lowercased.
pub open spec fn portal_from(s: Seq<char>) -> Option<Seq<char>>
    decreases s.len(),
{
    let k = line_len(s);
    match line_portal(s.take(k as int)) {
        Some(r) => r,
        None => if k < s.len() {
            proof {
                lemma_line_len_bound(s);
            }
            portal_from(s.skip(k + 1int))
        } else {
            None
        },
    }
}

/// `v[a..b]` as a vector of its own.
fn slice_of(v: &Vec<char>, a: usize, b: usize) -> (r: Vec<char>)
    requires
        a <= b <= v@.len(),
    ensures
        r@ == v@.subrange(a as int, b as int),
{
    let mut out: Vec<char> = Vec::new();
    let mut i: usize = a;
    while i < b
        invariant
            a <= i <= b,
            b <= v@.len(),
            out@ == v@.subrange(a as int, i as int),
        decreases b - i,
    {
        out.push(v[i]);
        assert(out@ =~= v@.subrange(a as int, i + 1));
        i = i + 1;
    }
    out
}

fn trimmed(v: &Vec<char>) -> (r: Vec<char>)
    ensures
        r@ == trim_seq(v@),
{
    let (a, b) = trim_bounds(v);
    slice_of(v, a, b)
}

fn quotes_trimmed(v: &Vec<char>) -> (r: Vec<char>)
    ensures
        r@ == trim_quotes(v@),
{
    let n = v.len();
    let mut a: usize = 0;
    assert(v@.subrange(0, n as int) =~= v@);
    while a < n && v[a] == '"'
        invariant
            a <= n == v@.len(),
            trim_quote_start(v@) == trim_quote_start(v@.subrange(a as int, n as int)),
        decreases n - a,
    {
        assert(v@.subrange(a as int, n as int).drop_first() =~= v@.subrange(a + 1, n as int));
        a = a + 1;
    }
    assert(trim_quote_start(v@.subrange(a as int, n as int)) == v@.subrange(a as int, n as int));
    let mut b: usize = n;
    while b > a && v[b - 1] == '"'
        invariant
            a <= b <= n == v@.len(),
            trim_quotes(v@) == trim_quote_end(v@.subrange(a as int, b as int)),
        decreases b - a,
    {
        assert(v@.subrange(a as int, b as int).drop_last() =~= v@.subrange(a as int, b - 1));
        b = b - 1;
    }
    slice_of(v, a, b)
}

/// The position of the first newline at or after `start`, or the end.
fn line_end(v: &Vec<char>, start: usize) -> (r: usize)
    requires
        start <= v@.len(),
    ensures
        r == start + line_len(v@.skip(start as int)),
        r <= v@.len(),
{
    let mut i: usize = start;
    while i < v.len() && v[i] != '\n'
        invariant
            start <= i <= v@.len(),
            line_len(v@.skip(start as int)) == (i - start) + line_len(v@.skip(i as int)),
        decreases v.len() - i,
    {
        assert(v@.skip(i as int).drop_first() =~= v@.skip(i + 1));
        i = i + 1;
    }
    proof {
        if i < v.len() {
            assert(v@.skip(i as int)[0] == v@[i as int]);
        }
    }
    i
}

/// The position of the first whitespace in `v`, or its length.
fn word_end(v: &Vec<char>) -> (r: usize)
    ensures
        r == word_len(v@),
{
    let mut i: usize = 0;
    assert(v@.skip(0) =~= v@);
    while i < v.len() && !is_whitespace(v[i])
        invariant
            i <= v@.len(),
            word_len(v@) == i + word_len(v@.skip(i as int)),
        decreases v.len() - i,
    {
        assert(v@.skip(i as int).drop_first() =~= v@.skip(i + 1));
        i = i + 1;
    }
    proof {
        if i < v.len() {
            assert(v@.skip(i as int)[0] == v@[i as int]);
        }
    }
    i
}

fn lowered(v: &Vec<char>) -> (r: String)
    ensures
        r@ == ascii_lower(v@),
{
    let mut out = String::new();
    let mut i: usize = 0;
    while i < v.len()
        invariant
            i <= v@.len(),
            out@ == ascii_lower(v@.take(i as int)),
        decreases v.len() - i,
    {
        let c = v[i];
        let l = if 'A' <= c && c <= 'Z' { ((c as u32) + 32) as u8 as char } else { c };
        assert(l == ascii_lower_char(c)) by {
            if 'A' <= c && c <= 'Z' {
                assert(((c as u32) + 32) as u8 as char == ((c as u32) + 32) as char);
            }
        }
        push_char(&mut out, l);
        assert(ascii_lower(v@.take(i + 1)) =~= ascii_lower(v@.take(i as int)).push(l));
        i = i + 1;
    }
    assert(v@.take(i as int) =~= v@);
    out
}

pub open spec fn opt_text(o: Option<String>) -> Option<Seq<char>> {
    match o {
        Some(s) => Some(s@),
        None => None,
    }
}

fn line_portal_exec(line: &Vec<char>) -> (r: Option<Option<String>>)
    ensures
        match line_portal(line@) {
            None => r is None,
            Some(x) => r matches Some(y) && opt_text(y) == x,
        },
{
    let t = trimmed(line);
    if !(t.len() >= 4 && t[0] == 'S' && t[1] == 'E' && t[2] == 'T' && t[3] == ' ') {
        return None;
    }
    let rest = slice_of(&t, 4, t.len());
    assert(rest@ =~= t@.skip(4));
    let w = word_end(&rest);
    proof {
        lemma_word_len_bound(rest@);
    }
    let is_portal = w == 6 && rest[0] == 'p' && rest[1] == 'o' && rest[2] == 'r' && rest[3] == 't'
        && rest[4] == 'a' && rest[5] == 'l';
    assert(is_portal == (rest@.take(w as int) =~= seq!['p', 'o', 'r', 't', 'a', 'l']));
    if !is_portal {
        return None;
    }
    if w >= rest.len() {
        return Some(None);
    }
    let after = slice_of(&rest, w + 1, rest.len());
    assert(after@ =~= rest@.skip(w + 1));
    let v1 = trimmed(&after);
    let v2 = quotes_trimmed(&v1);
    let v3 = trimmed(&v2);
    if v3.len() == 0 {
        return Some(None);
    }
    Some(Some(lowered(&v3)))
}

/// Extracts the login region from Config.wtf contents (`SET portal "EU"`),
/// lowercased; `None` when the first `portal` setting has no value or there
/// is none.
pub fn parse_portal(config_wtf: &str) -> (r: Option<String>)
    ensures
        opt_text(r) == portal_from(config_wtf@),
{
    let v = chars_of(config_wtf);
    let mut start: usize = 0;
    assert(v@.skip(0) =~= v@);
    loop
        invariant
            v@ == config_wtf@,
            start <= v@.len(),
            portal_from(v@) == portal_from(v@.skip(start as int)),
        decreases v@.len() - start,
    {
        let end = line_end(&v, start);
        let line = slice_of(&v, start, end);
        let ghost s = v@.skip(start as int);
        assert(line@ =~= s.take(line_len(s) as int));
        match line_portal_exec(&line) {
            Some(res) => {
                return res;
            },
            None => {
                if end >= v.len() {
                    return None;
                }
                assert(s.skip(line_len(s) + 1int) =~= v@.skip(end + 1));
                start = end + 1;
            },
        }
    }
}

/// What the Settings window can prefill from the game's own files.
#[derive(Debug, Clone, PartialEq, Eq)]
pub struct GameSettings {
    /// Lowercased login portal ("eu", "us", ...) when Config.wtf declares one.
    pub region: Option<String>,
    /// Realm display names, most recently played first, no repeats.
    pub realm_names: Vec<String>,
}

/// The game's settings from the contents of Config.wtf (if it could be read)
/// and the realm names found under `WTF/Account`.
pub fn read_game_settings(config_wtf: Option<&str>, realm_names: Vec<String>) -> (r: GameSettings)
    ensures
        opt_text(r.region) == (match config_wtf {
            Some(text) => portal_from(text@),
            None => None,
        }),
        r.realm_names == realm_names,
{
    let region = match config_wtf {
        Some(text) => parse_portal(text),
        None => None,
    };
    GameSettings { region, realm_names }
}

} // verus!

verus! {

/// A realm folder found under `WTF/Account/<ACCOUNT>/`: its name and when it
/// was last written (the epoch when that could not be read).
#[derive(Debug)]
pub struct RealmDir {
    pub name: String,
    pub modified: crate::sync::Timestamp,
}

impl Clone for RealmDir {
    fn clone(&self) -> (r: RealmDir)
        ensures
            r == *self,
    {
        RealmDir { name: self.name.clone(), modified: self.modified }
    }
}

pub open spec fn key_of(d: RealmDir) -> int {
    crate::sync::total_nanos(d.modified)
}

/// The first position in `s` holding a folder older than `k`, or its length.
pub open spec fn first_older(s: Seq<RealmDir>, k: int) -> nat
    decreases s.len(),
{
    if s.len() == 0 || key_of(s[0]) < k {
        0
    } else {
        1 + first_older(s.drop_first(), k)
    }
}

/// `s` sorted newest first, folders written at the same moment kept in the
/// order they were found (a stable sort, by insertion).
pub open spec fn newest_first(s: Seq<RealmDir>) -> Seq<RealmDir>
    decreases s.len(),
{
    if s.len() == 0 {
        Seq::empty()
    } else {
        let sorted = newest_first(s.drop_last());
        sorted.insert(first_older(sorted, key_of(s.last())) as int, s.last())
    }
}

/// `names` with every repeat after the first dropped.
pub open spec fn first_occurrences(names: Seq<Seq<char>>) -> Seq<Seq<char>>
    decreases names.len(),
{
    if names.len() == 0 {
        Seq::empty()
    } else {
        let kept = first_occurrences(names.drop_last());
        if kept.contains(names.last()) {
            kept
        } else {
            kept.push(names.last())
        }
    }
}

/// The realm folders that are realms: `SavedVariables` lives at the same
/// level and is not one.
pub open spec fn realm_dirs(found: Seq<RealmDir>) -> Seq<RealmDir>
    decreases found.len(),
{
    if found.len() == 0 {
        Seq::empty()
    } else if found.last().name@ != "SavedVariables"@ {
        realm_dirs(found.drop_last()).push(found.last())
    } else {
        realm_dirs(found.drop_last())
    }
}

/// The realm names to offer: most recently played first, each once.
pub open spec fn realm_names_spec(found: Seq<RealmDir>) -> Seq<Seq<char>> {
    first_occurrences(newest_first(realm_dirs(found)).map_values(|d: RealmDir| d.name@))
}

proof fn lemma_first_older_bound(s: Seq<RealmDir>, k: int)
    ensures
        first_older(s, k) <= s.len(),
    decreases s.len(),
{
    if s.len() > 0 && key_of(s[0]) >= k {
        lemma_first_older_bound(s.drop_first(), k);
    }
}

fn first_older_exec(s: &Vec<RealmDir>, k: i128) -> (r: usize)
    ensures
        r == first_older(s@, k as int),
{
    let mut i: usize = 0;
    assert(s@.skip(0) =~= s@);
    while i < s.len()
        && (s[i].modified.secs as i128 * 1_000_000_000 + s[i].modified.nanos as i128) >= k
        invariant
            i <= s@.len(),
            first_older(s@, k as int) == i + first_older(s@.skip(i as int), k as int),
        decreases s.len() - i,
    {
        assert(s@.skip(i as int).drop_first() =~= s@.skip(i + 1));
        assert(s@.skip(i as int)[0] == s@[i as int]);
        i = i + 1;
    }
    proof {
        if i < s.len() {
            assert(s@.skip(i as int)[0] == s@[i as int]);
        }
    }
    i
}

fn contains_name(names: &Vec<String>, name: &String) -> (r: bool)
    ensures
        r == crate::savedvars::views_of(names@).contains(name@),
{
    let mut i: usize = 0;
    while i < names.len()
        invariant
            i <= names@.len(),
            forall|j: int| 0 <= j < i ==> names@[j]@ != name@,
        decreases names.len() - i,
    {
        if crate::text::str_eq(names[i].as_str(), name.as_str()) {
            assert(crate::savedvars::views_of(names@)[i as int] == name@);
            return true;
        }
        i = i + 1;
    }
    assert forall|j: int| 0 <= j < crate::savedvars::views_of(names@).len()
        implies crate::savedvars::views_of(names@)[j] != name@ by {
        assert(crate::savedvars::views_of(names@)[j] == names@[j]@);
    }
    false
}

/// The realm names under `WTF/Account`, from the folders found there: the
/// `SavedVariables` folder left out, the most recently written first (ties in
/// the order found), and a name found under several accounts listed once.
pub fn order_realm_names(found: &Vec<RealmDir>) -> (r: Vec<String>)
    ensures
        crate::savedvars::views_of(r@) == realm_names_spec(found@),
{
    let mut sorted: Vec<RealmDir> = Vec::new();
    let mut i: usize = 0;
    while i < found.len()
        invariant
            i <= found@.len(),
            sorted@ == newest_first(realm_dirs(found@.take(i as int))),
        decreases found.len() - i,
    {
        let d = &found[i];
        let ghost prev = found@.take(i as int);
        assert(found@.take(i + 1) =~= prev.push(*d));
        assert(prev.push(*d).drop_last() =~= prev);
        if !crate::text::str_eq(d.name.as_str(), "SavedVariables") {
            let k: i128 = d.modified.secs as i128 * 1_000_000_000 + d.modified.nanos as i128;
            let p = first_older_exec(&sorted, k);
            proof {
                lemma_first_older_bound(sorted@, k as int);
                assert(realm_dirs(prev).push(*d).drop_last() =~= realm_dirs(prev));
            }
            sorted.insert(p, d.clone());
        }
        i = i + 1;
    }
    assert(found@.take(i as int) =~= found@);
    let ghost all = newest_first(realm_dirs(found@)).map_values(|d: RealmDir| d.name@);
    let mut names: Vec<String> = Vec::new();
    let mut k: usize = 0;
    while k < sorted.len()
        invariant
            k <= sorted@.len(),
            sorted@ == newest_first(realm_dirs(found@)),
            all == sorted@.map_values(|d: RealmDir| d.name@),
            crate::savedvars::views_of(names@) == first_occurrences(all.take(k as int)),
        decreases sorted.len() - k,
    {
        assert(all.take(k + 1).drop_last() =~= all.take(k as int));
        assert(all.take(k + 1).last() == sorted@[k as int].name@);
        let name = &sorted[k].name;
        if !contains_name(&names, name) {
            let ghost before = names@;
            names.push(name.clone());
            assert(crate::savedvars::views_of(names@) =~= crate::savedvars::views_of(before).push(name@));
        }
        k = k + 1;
    }
    assert(all.take(k as int) =~= all);
    names
}

} // verus!

verus! {

/// Keeping first occurrences leaves no name twice.
pub proof fn law_realm_names_are_distinct(names: Seq<Seq<char>>)
    ensures
        forall|i: int, j: int| 0 <= i < j < first_occurrences(names).len()
            ==> first_occurrences(names)[i] != first_occurrences(names)[j],
    decreases names.len(),
{
    if names.len() > 0 {
        law_realm_names_are_distinct(names.drop_last());
        let kept = first_occurrences(names.drop_last());
        if !kept.contains(names.last()) {
            let r = kept.push(names.last());
            assert forall|i: int, j: int| 0 <= i < j < r.len() implies r[i] != r[j] by {
                if j == r.len() - 1 {
                    assert(r[i] == kept[i]);
                    assert(kept.contains(kept[i]));
                }
            }
        }
    }
}

} // verus!

verus! {

/// Where `first_older` lands: every folder before it is at least as new as
/// `k`, and the folder at it (if any) is older.
proof fn lemma_first_older_props(s: Seq<RealmDir>, k: int)
    ensures
        first_older(s, k) <= s.len(),
        forall|j: int| 0 <= j < first_older(s, k) ==> key_of(#[trigger] s[j]) >= k,
        first_older(s, k) < s.len() ==> key_of(s[first_older(s, k) as int]) < k,
    decreases s.len(),
{
    if s.len() > 0 && key_of(s[0]) >= k {
        let t = s.drop_first();
        lemma_first_older_props(t, k);
        assert forall|j: int| 0 <= j < first_older(s, k) implies key_of(#[trigger] s[j]) >= k by {
            if j > 0 {
                assert(s[j] == t[j - 1]);
            }
        }
        if first_older(s, k) < s.len() {
            assert(s[first_older(s, k) as int] == t[first_older(t, k) as int]);
        }
    }
}

/// The folders are ordered most recently written first: along the ordered
/// list, modification times never increase, and every folder found is in it
/// exactly as often as it was found.
pub proof fn law_newest_first_is_sorted(s: Seq<RealmDir>)
    ensures
        forall|i: int, j: int| 0 <= i < j < newest_first(s).len()
            ==> key_of(#[trigger] newest_first(s)[i]) >= key_of(#[trigger] newest_first(s)[j]),
        newest_first(s).to_multiset() == s.to_multiset(),
    decreases s.len(),
{
    broadcast use vstd::seq_lib::to_multiset_insert, vstd::seq_lib::to_multiset_build;
    if s.len() > 0 {
        let prev = s.drop_last();
        let d = s.last();
        let k = key_of(d);
        law_newest_first_is_sorted(prev);
        let sorted = newest_first(prev);
        lemma_first_older_props(sorted, k);
        let p = first_older(sorted, k) as int;
        let r = sorted.insert(p, d);
        assert(r == newest_first(s));
        assert forall|i: int, j: int| 0 <= i < j < r.len() implies key_of(#[trigger] r[i]) >= key_of(#[trigger] r[j]) by {
            if j < p {
                assert(r[i] == sorted[i] && r[j] == sorted[j]);
            } else if j == p {
                assert(r[i] == sorted[i]);
                assert(key_of(sorted[i]) >= k);
            } else if i < p {
                assert(r[i] == sorted[i] && r[j] == sorted[j - 1]);
                assert(key_of(sorted[i]) >= key_of(sorted[j - 1]) || i == j - 1);
            } else if i == p {
                assert(r[j] == sorted[j - 1]);
                assert(key_of(sorted[j - 1]) <= key_of(sorted[p]) || j - 1 == p);
            } else {
                assert(r[i] == sorted[i - 1] && r[j] == sorted[j - 1]);
            }
        }
        assert(s =~= prev.push(d));
        vstd::seq_lib::to_multiset_insert(sorted, p, d);
        vstd::seq_lib::to_multiset_build(prev, d);
        assert(r.to_multiset() == s.to_multiset());
    } else {
        assert(s =~= newest_first(s));
    }
}

} // verus!
