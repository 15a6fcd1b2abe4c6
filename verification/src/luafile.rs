//! The `GoldCap_AppData` mini-addon's text: the magic-prefix check for a
//! fetched import string, Lua string escaping, and the `AppData.lua` body.
//! Writing the files is the caller's job; everything here is pure.
use vstd::prelude::*;
use crate::text::{chars_of, push_char, push_i64, int_text, has_line, infix_at};

verus! {


/// The GCS1 magic prefix, character by character.
pub open spec fn gcs1_magic() -> Seq<char> {
    seq!['G', 'C', 'S', '1', ';']
}

/// A successful sync is a body that starts with the GCS1 magic prefix the
/// addon's import parser expects; anything else must never reach disk.
pub fn is_valid_gcs1_body(body: &str) -> (r: bool)
    ensures
        r == gcs1_magic().is_prefix_of(body@),
{
    let v = chars_of(body);
    if v.len() < 5 {
        return false;
    }
    let ok = v[0] == 'G' && v[1] == 'C' && v[2] == 'S' && v[3] == '1' && v[4] == ';';
    assert(ok == (body@.subrange(0, 5) =~= gcs1_magic()));
    ok
}

/// What one character becomes inside a single-quoted Lua string literal.
pub open spec fn escape_char(c: char) -> Seq<char> {
    if c == '\\' {
        seq!['\\', '\\']
    } else if c == '\'' {
        seq!['\\', '\'']
    } else if c == '\n' {
        seq!['\\', 'n']
    } else if c == '\r' {
        seq!['\\', 'r']
    } else if c == '\0' {
        Seq::empty()
    } else {
        seq![c]
    }
}

/// A whole string escaped for a single-quoted Lua literal: each character in
/// turn, NUL dropped.
pub open spec fn escape_lua(s: Seq<char>) -> Seq<char>
    decreases s.len(),
{
    if s.len() == 0 {
        Seq::empty()
    } else {
        escape_lua(s.drop_last()) + escape_char(s.last())
    }
}

/// Appends `v[from..to]` escaped for a single-quoted Lua string literal.
pub fn push_escaped_range(out: &mut String, v: &Vec<char>, from: usize, to: usize)
    requires
        from <= to <= v@.len(),
    ensures
        final(out)@ == old(out)@ + escape_lua(v@.subrange(from as int, to as int)),
{
    let mut i: usize = from;
    assert(v@.subrange(from as int, from as int) =~= Seq::<char>::empty());
    while i < to
        invariant
            from <= i <= to <= v@.len(),
            out@ == old(out)@ + escape_lua(v@.subrange(from as int, i as int)),
        decreases to - i,
    {
        let ch = v[i];
        if ch == '\\' {
            push_char(out, '\\');
            push_char(out, '\\');
        } else if ch == '\'' {
            push_char(out, '\\');
            push_char(out, '\'');
        } else if ch == '\n' {
            push_char(out, '\\');
            push_char(out, 'n');
        } else if ch == '\r' {
            push_char(out, '\\');
            push_char(out, 'r');
        } else if ch == '\0' {
        } else {
            push_char(out, ch);
        }
        assert(v@.subrange(from as int, i + 1).drop_last() =~= v@.subrange(from as int, i as int));
        i = i + 1;
        assert(out@ =~= old(out)@ + escape_lua(v@.subrange(from as int, i as int)));
    }
}

/// Appends `s` escaped for a single-quoted Lua string literal.
pub fn push_escaped(out: &mut String, s: &str)
    ensures
        final(out)@ == old(out)@ + escape_lua(s@),
{
    let v = chars_of(s);
    push_escaped_range(out, &v, 0, v.len());
    assert(v@.subrange(0, v@.len() as int) =~= s@);
}

/// Escapes a string for safe embedding inside a Lua single-quoted string
/// literal: backslash, quote, newline and carriage return get a backslash
/// escape, NUL is dropped, everything else is kept.
pub fn escape_lua_string(s: &str) -> (r: String)
    ensures
        r@ == escape_lua(s@),
{
    let mut out = String::new();
    push_escaped(&mut out, s);
    out
}

/// `AppData.lua`'s contents.
pub open spec fn app_data_lua(import_string: Seq<char>, region_string: Option<Seq<char>>, written_at: int) -> Seq<char> {
    "GoldCap_AppData = { importString = '"@ + escape_lua(import_string) + match region_string {
        Some(region) => "', regionString = '"@ + escape_lua(region),
        None => Seq::empty(),
    } + "', writtenAt = "@ + int_text(written_at) + " }\n"@
}

/// Renders `AppData.lua`: `GoldCap_AppData = { importString = '...', writtenAt = N }`,
/// with `regionString = '...'` between the two when a region payload is held.
pub fn render_app_data_lua(import_string: &str, region_string: Option<&str>, written_at: i64) -> (r: String)
    ensures
        r@ == app_data_lua(import_string@, match region_string {
            Some(region) => Some(region@),
            None => None,
        }, written_at as int),
{
    let mut out = String::new();
    out.append("GoldCap_AppData = { importString = '");
    push_escaped(&mut out, import_string);
    match region_string {
        Some(region) => {
            out.append("', regionString = '");
            push_escaped(&mut out, region);
        },
        None => {},
    }
    out.append("', writtenAt = ");
    push_i64(&mut out, written_at);
    out.append(" }\n");
    out
}

} // verus!

verus! {

/// The static `GoldCap_AppData.toc`: the Interface version, the mini-addon's
/// title and notes, and its three data files.
pub open spec fn toc_text() -> Seq<char> {
    "## Interface: 120007\n## Title: GoldCap AppData\n## Notes: Auto-synced market data for GoldCap. File is rewritten by the GoldCap companion app.\n## LoadOnDemand: 0\nAppData.lua\nLedgerSummary.lua\nRuns.lua\n"@
}

/// The contents of `GoldCap_AppData.toc`.
pub fn toc_contents() -> (r: String)
    ensures
        r@ == toc_text(),
{
    String::from_str("## Interface: 120007\n## Title: GoldCap AppData\n## Notes: Auto-synced market data for GoldCap. File is rewritten by the GoldCap companion app.\n## LoadOnDemand: 0\nAppData.lua\nLedgerSummary.lua\nRuns.lua\n")
}

/// Whether the `.toc` must be (re)written: it is missing, or it differs from
/// today's contents. An unchanged file is left alone so its mtime does not
/// churn on every tick.
pub fn toc_needs_write(existing: Option<&str>) -> (r: bool)
    ensures
        r == match existing {
            Some(text) => text@ != toc_text(),
            None => true,
        },
{
    match existing {
        Some(text) => {
            let toc = toc_contents();
            !crate::text::str_eq(text, toc.as_str())
        },
        None => true,
    }
}

} // verus!

verus! {

/// What Lua's lexer reads back from the inside of a single-quoted string
/// literal: a backslash and the character after it stand for that character
/// (`n` and `r` for a newline and a carriage return), anything else for itself.
pub open spec fn lua_read(t: Seq<char>) -> Seq<char>
    decreases t.len(),
{
    if t.len() == 0 {
        Seq::empty()
    } else if t[0] == '\\' && t.len() >= 2 {
        seq![if t[1] == 'n' { '\n' } else if t[1] == 'r' { '\r' } else { t[1] }] + lua_read(t.skip(2))
    } else {
        seq![t[0]] + lua_read(t.skip(1))
    }
}

/// `s` without its NUL characters.
pub open spec fn without_nul(s: Seq<char>) -> Seq<char>
    decreases s.len(),
{
    if s.len() == 0 {
        Seq::empty()
    } else if s[0] == '\0' {
        without_nul(s.skip(1))
    } else {
        seq![s[0]] + without_nul(s.skip(1))
    }
}

/// `escape_lua`, one character at a time from the front.
spec fn escape_front(s: Seq<char>) -> Seq<char>
    decreases s.len(),
{
    if s.len() == 0 {
        Seq::empty()
    } else {
        escape_char(s[0]) + escape_front(s.skip(1))
    }
}

proof fn lemma_escape_front_push(s: Seq<char>, c: char)
    ensures
        escape_front(s.push(c)) == escape_front(s) + escape_char(c),
    decreases s.len(),
{
    if s.len() == 0 {
        let none = Seq::<char>::empty();
        assert(s.push(c).skip(1) =~= none);
        assert(escape_front(none) == none);
        assert(s.push(c)[0] == c);
        assert(escape_front(s.push(c)) == escape_char(c) + escape_front(none));
        assert(escape_front(s.push(c)) =~= escape_char(c));
        assert(escape_front(s) == none);
        assert(escape_front(s) + escape_char(c) =~= escape_char(c));
    } else {
        assert(s.push(c).skip(1) =~= s.skip(1).push(c));
        lemma_escape_front_push(s.skip(1), c);
        assert(escape_front(s.push(c)) =~= escape_char(s[0]) + (escape_front(s.skip(1)) + escape_char(c)));
    }
}

proof fn lemma_escape_is_front(s: Seq<char>)
    ensures
        escape_lua(s) == escape_front(s),
    decreases s.len(),
{
    if s.len() > 0 {
        lemma_escape_is_front(s.drop_last());
        lemma_escape_front_push(s.drop_last(), s.last());
        assert(s.drop_last().push(s.last()) =~= s);
    }
}

/// Reading one escaped character and then anything after it reads each in turn.
proof fn lemma_read_block(c: char, t: Seq<char>)
    ensures
        lua_read(escape_char(c) + t) == (if c == '\0' { Seq::empty() } else { seq![c] }) + lua_read(t),
{
    let e = escape_char(c);
    let whole = e + t;
    if c == '\0' {
        assert(whole =~= t);
        assert((Seq::<char>::empty() + lua_read(t)) =~= lua_read(t));
    } else if e.len() == 1 {
        assert(whole[0] == c);
        assert(whole.skip(1) =~= t);
    } else {
        assert(whole[0] == '\\');
        assert(whole.skip(2) =~= t);
    }
}

/// Whatever string is escaped, Lua reads back exactly that string, less its
/// NUL characters (which a Lua short string cannot carry and are dropped):
/// no input can end the literal early or break the file.
pub proof fn law_escape_reads_back(s: Seq<char>)
    ensures
        lua_read(escape_lua(s)) == without_nul(s),
    decreases s.len(),
{
    lemma_escape_is_front(s);
    if s.len() > 0 {
        law_escape_reads_back(s.skip(1));
        lemma_escape_is_front(s.skip(1));
        lemma_read_block(s[0], escape_front(s.skip(1)));
    }
}

} // verus!

verus! {

/// The mini-addon is loaded at login, not on demand: the `.toc` carries the
/// line `## LoadOnDemand: 0`, and no line asking for load on demand. It also
/// lists the price, ledger and runs files, so all three are read.
pub proof fn law_toc_loads_at_login()
    ensures
        has_line(toc_text(), "## LoadOnDemand: 0"@),
        !has_line(toc_text(), "## LoadOnDemand: 1"@),
        has_line(toc_text(), "AppData.lua"@),
        has_line(toc_text(), "LedgerSummary.lua"@),
        has_line(toc_text(), "Runs.lua"@),
{
    let t = toc_text();
    reveal_strlit("## Interface: 120007\n## Title: GoldCap AppData\n## Notes: Auto-synced market data for GoldCap. File is rewritten by the GoldCap companion app.\n## LoadOnDemand: 0\nAppData.lua\nLedgerSummary.lua\nRuns.lua\n");
    reveal_strlit("## LoadOnDemand: 0");
    reveal_strlit("## LoadOnDemand: 1");
    reveal_strlit("AppData.lua");
    reveal_strlit("LedgerSummary.lua");
    reveal_strlit("Runs.lua");
    assert(t.len() == 200);
    assert(t.subrange(142, 160) =~= "## LoadOnDemand: 0"@);
    assert(infix_at(t, "## LoadOnDemand: 0"@, 142));
    assert(t.subrange(161, 172) =~= "AppData.lua"@);
    assert(infix_at(t, "AppData.lua"@, 161));
    assert(t.subrange(173, 190) =~= "LedgerSummary.lua"@);
    assert(infix_at(t, "LedgerSummary.lua"@, 173));
    assert(t.subrange(191, 199) =~= "Runs.lua"@);
    assert(infix_at(t, "Runs.lua"@, 191));
    assert forall|i: int| !(#[trigger] infix_at(t, "## LoadOnDemand: 1"@, i)) by {
        if infix_at(t, "## LoadOnDemand: 1"@, i) {
            let w = t.subrange(i, i + 18);
            assert(w[17] == '1');
            assert(w[3] == 'L' && w[0] == '#');
            assert(t[i + 17] == '1' && t[i + 3] == 'L');
        }
    }
}

} // verus!
