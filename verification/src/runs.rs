//! The "Buy runs" payload and its `Runs.lua` renderer. The wire payload is
//! shaped (leniently) by the caller; this module decides what reaches the
//! addon: which facts are written, which are dropped, and when the whole file
//! is refused.
use vstd::prelude::*;
use crate::text::{chars_of, push_char, push_i64, int_text, trim_bounds, trim_seq, join, has_infix, infix_at,
    lemma_join_push, bool_text, push_bool, debug_text, debug_quoted};
use crate::luafile::{escape_lua, push_escaped, push_escaped_range};
use crate::ledger_summary::{parse_iso_utc, iso_utc_spec};

verus! {

/// When the region's last 14 days say this item is usually cheapest: `hour`
/// 0 to 23 in UTC, `pct` how far under the mean that hour sits.
#[derive(Debug, Clone, PartialEq)]
pub struct WireCheapHour {
    pub hour: i64,
    pub pct: i64,
}

/// Where a run came from, as the site would say it out loud.
#[derive(Debug, Clone, PartialEq)]
pub struct WireRunSource {
    pub label: String,
}

/// The realm an alert hit was seen on.
#[derive(Debug, Clone, PartialEq)]
pub struct WireRealm {
    pub id: u32,
    pub name: String,
}

/// One reagent of one craft; prices in copper per unit, absent when unknown.
#[derive(Debug, Clone, PartialEq)]
pub struct WireCraftReagent {
    pub item_id: u32,
    pub qty: u32,
    pub name_en: String,
    pub vendor: bool,
    pub usual: Option<i64>,
    pub vendor_unit: Option<i64>,
}

/// The cheapest fully priced recipe that makes a line's item.
#[derive(Debug, Clone, PartialEq)]
pub struct WireCraft {
    pub recipe_id: u32,
    pub crafted_qty: u32,
    pub cost_copper: i64,
    pub reagents: Vec<WireCraftReagent>,
}

/// One line of a buy run.
#[derive(Debug, Clone, PartialEq)]
pub struct WireRunLine {
    pub item_id: u32,
    pub qty: u32,
    pub vendor: bool,
    pub name_en: String,
    pub usual: Option<i64>,
    pub vendor_unit: Option<i64>,
    pub cheap_hour: Option<WireCheapHour>,
    pub cap: Option<i64>,
    pub realm: Option<WireRealm>,
    pub craft: Option<WireCraft>,
    pub min_ilvl: Option<u32>,
}

/// One buy run.
#[derive(Debug, Clone, PartialEq)]
pub struct WireRun {
    pub code: String,
    pub name: Option<String>,
    pub updated_at: String,
    pub kind: Option<String>,
    pub shared_by: Option<String>,
    pub source: Option<WireRunSource>,
    pub lines: Vec<WireRunLine>,
}

/// One alert-group member the addon polls live: item, ceiling per unit,
/// lowest item level (0 = any), 0-based group index, and whether the player
/// typed the price.
#[derive(Debug, Clone, PartialEq)]
pub struct WireCap {
    pub item_id: u32,
    pub cap: i64,
    pub min_ilvl: u32,
    pub group: Option<u32>,
    pub manual: bool,
}

/// The whole buy-runs payload.
#[derive(Debug, Clone, PartialEq)]
pub struct WireRuns {
    pub v: u32,
    pub generated_at: String,
    pub plan: String,
    pub free_lines: u32,
    pub runs: Vec<WireRun>,
    pub groups: Vec<String>,
    pub caps: Vec<WireCap>,
}

/// A string the addon can put in front of a player: trimmed, and only when
/// something is left.
pub open spec fn shown(s: Seq<char>) -> Option<Seq<char>> {
    if trim_seq(s).len() > 0 {
        Some(trim_seq(s))
    } else {
        None
    }
}

/// `key` and the value when the value is a positive amount; nothing otherwise
/// (unknown is absent, and so is zero).
#[verifier::opaque]
pub open spec fn positive_fact(key: Seq<char>, v: Option<i64>) -> Seq<char> {
    match v {
        Some(x) => if x > 0 {
            key + int_text(x as int)
        } else {
            Seq::empty()
        },
        None => Seq::empty(),
    }
}

pub open spec fn reagent_lua(r: WireCraftReagent) -> Seq<char> {
    "{ i = "@ + int_text(r.item_id as int) + ", q = "@ + int_text(r.qty as int) + ", n = '"@
        + escape_lua(r.name_en@) + "', v = "@ + bool_text(r.vendor) + positive_fact(", u = "@, r.usual)
        + positive_fact(", vu = "@, r.vendor_unit) + " }"@
}

/// A craft the addon can act on: a known recipe, a yield, a cost, and
/// reagents that each name an item and a quantity.
pub open spec fn craft_usable(c: WireCraft) -> bool {
    &&& c.recipe_id != 0
    &&& c.crafted_qty != 0
    &&& c.cost_copper > 0
    &&& c.reagents@.len() > 0
    &&& forall|i: int| 0 <= i < c.reagents@.len() ==> #[trigger] reagent_ok(c.reagents@[i])
}

pub open spec fn reagent_ok(r: WireCraftReagent) -> bool {
    r.item_id != 0 && r.qty != 0
}

pub open spec fn reagent_parts(rs: Seq<WireCraftReagent>) -> Seq<Seq<char>> {
    rs.map_values(|r: WireCraftReagent| reagent_lua(r))
}

pub open spec fn craft_lua(c: WireCraft) -> Seq<char> {
    ", cr = { r = "@ + int_text(c.recipe_id as int) + ", n = "@ + int_text(c.crafted_qty as int)
        + ", c = "@ + int_text(c.cost_copper as int) + ", i = { "@ + join(reagent_parts(c.reagents@))
        + " } }"@
}

#[verifier::opaque]
pub open spec fn cheap_hour_fact(ch: Option<WireCheapHour>) -> Seq<char> {
    match ch {
        Some(c) => if 0 <= c.hour <= 23 {
            ", ch = "@ + int_text(c.hour as int) + ", cp = "@ + int_text(c.pct as int)
        } else {
            Seq::empty()
        },
        None => Seq::empty(),
    }
}

#[verifier::opaque]
pub open spec fn min_ilvl_fact(m: Option<u32>) -> Seq<char> {
    match m {
        Some(x) => if x > 0 {
            ", minIlvl = "@ + int_text(x as int)
        } else {
            Seq::empty()
        },
        None => Seq::empty(),
    }
}

#[verifier::opaque]
pub open spec fn realm_fact(r: Option<WireRealm>) -> Seq<char> {
    match r {
        Some(realm) => if realm.id > 0 && shown(realm.name@) is Some {
            ", rl = { id = "@ + int_text(realm.id as int) + ", n = '"@ + escape_lua(trim_seq(realm.name@))
                + "' }"@
        } else {
            Seq::empty()
        },
        None => Seq::empty(),
    }
}

#[verifier::opaque]
pub open spec fn craft_fact(c: Option<WireCraft>) -> Seq<char> {
    match c {
        Some(craft) => if craft_usable(craft) {
            craft_lua(craft)
        } else {
            Seq::empty()
        },
        None => Seq::empty(),
    }
}

/// One run line as the addon reads it: id, quantity, vendor flag and name,
/// then each optional fact only when the addon can use it.
pub open spec fn line_lua(l: WireRunLine) -> Seq<char> {
    "{ i = "@ + int_text(l.item_id as int) + ", q = "@ + int_text(l.qty as int) + ", v = "@
        + bool_text(l.vendor) + ", n = '"@ + escape_lua(l.name_en@) + "'"@
        + positive_fact(", u = "@, l.usual) + positive_fact(", vu = "@, l.vendor_unit)
        + cheap_hour_fact(l.cheap_hour) + positive_fact(", cc = "@, l.cap) + min_ilvl_fact(l.min_ilvl)
        + realm_fact(l.realm) + craft_fact(l.craft) + " }"@
}

pub open spec fn line_parts(ls: Seq<WireRunLine>) -> Seq<Seq<char>> {
    ls.map_values(|l: WireRunLine| line_lua(l))
}

#[verifier::opaque]
pub open spec fn name_fact(n: Option<String>) -> Seq<char> {
    match n {
        Some(name) => "name = '"@ + escape_lua(name@) + "', "@,
        None => Seq::empty(),
    }
}

/// Only an alert run says what kind it is; a list run is the default.
#[verifier::opaque]
pub open spec fn kind_fact(k: Option<String>) -> Seq<char> {
    match k {
        Some(kind) => if kind@ == "alert"@ {
            "k = 'alert', "@
        } else {
            Seq::empty()
        },
        None => Seq::empty(),
    }
}

#[verifier::opaque]
pub open spec fn by_fact(by: Option<String>) -> Seq<char> {
    match by {
        Some(b) => match shown(b@) {
            Some(t) => "by = '"@ + escape_lua(t) + "', "@,
            None => Seq::empty(),
        },
        None => Seq::empty(),
    }
}

#[verifier::opaque]
pub open spec fn src_fact(src: Option<WireRunSource>) -> Seq<char> {
    match src {
        Some(s) => match shown(s.label@) {
            Some(t) => "src = '"@ + escape_lua(t) + "', "@,
            None => Seq::empty(),
        },
        None => Seq::empty(),
    }
}

/// One run, or the refusal its unreadable `updatedAt` earns the whole file.
pub open spec fn run_lua(r: WireRun) -> Result<Seq<char>, Seq<char>> {
    match iso_utc_spec(vstd::utf8::encode_utf8(r.updated_at@)) {
        None => Err("runs: bad updatedAt "@ + debug_text(r.updated_at@) + " on run "@ + r.code@),
        Some(t) => Ok(
            "{ code = '"@ + escape_lua(r.code@) + "', "@ + name_fact(r.name) + kind_fact(r.kind)
                + by_fact(r.shared_by) + src_fact(r.source) + "updatedAt = "@ + int_text(t as int)
                + ", lines = { "@ + join(line_parts(r.lines@)) + " } }"@,
        ),
    }
}

/// Every run rendered, or the first refusal in run order.
pub open spec fn run_parts(rs: Seq<WireRun>) -> Result<Seq<Seq<char>>, Seq<char>>
    decreases rs.len(),
{
    if rs.len() == 0 {
        Ok(Seq::empty())
    } else {
        match run_parts(rs.drop_last()) {
            Err(e) => Err(e),
            Ok(parts) => match run_lua(rs.last()) {
                Err(e) => Err(e),
                Ok(t) => Ok(parts.push(t)),
            },
        }
    }
}

/// A cap the addon can poll: an item and a positive ceiling.
pub open spec fn cap_usable(c: WireCap) -> bool {
    c.item_id > 0 && c.cap > 0
}

/// The 1-based group label a cap carries: only when its index names a group
/// the addon can show.
pub open spec fn group_fact(g: Option<u32>, groups: Seq<String>) -> Seq<char> {
    match g {
        Some(i) => if i < groups.len() && shown(groups[i as int]@) is Some {
            ", g = "@ + int_text(i + 1)
        } else {
            Seq::empty()
        },
        None => Seq::empty(),
    }
}

pub open spec fn cap_lua(c: WireCap, groups: Seq<String>) -> Seq<char> {
    "{ i = "@ + int_text(c.item_id as int) + ", c = "@ + int_text(c.cap as int) + (if c.min_ilvl > 0 {
        ", l = "@ + int_text(c.min_ilvl as int)
    } else {
        Seq::empty()
    }) + group_fact(c.group, groups) + (if c.manual {
        ", m = true"@
    } else {
        Seq::empty()
    }) + " }"@
}

/// The usable caps, rendered, in wire order.
pub open spec fn cap_parts(cs: Seq<WireCap>, groups: Seq<String>) -> Seq<Seq<char>>
    decreases cs.len(),
{
    if cs.len() == 0 {
        Seq::empty()
    } else if cap_usable(cs.last()) {
        cap_parts(cs.drop_last(), groups).push(cap_lua(cs.last(), groups))
    } else {
        cap_parts(cs.drop_last(), groups)
    }
}

pub open spec fn group_parts(gs: Seq<String>) -> Seq<Seq<char>> {
    gs.map_values(|g: String| "'"@ + escape_lua(g@) + "'"@)
}

/// The groups and caps tables, present only when some cap is usable.
#[verifier::opaque]
pub open spec fn caps_section(w: WireRuns) -> Seq<char> {
    if cap_parts(w.caps@, w.groups@).len() > 0 {
        ", groups = { "@ + join(group_parts(w.groups@)) + " }, caps = { "@ + join(cap_parts(w.caps@, w.groups@))
            + " }"@
    } else {
        Seq::empty()
    }
}

/// `Runs.lua`'s contents, or why it cannot be written.
pub open spec fn runs_lua(w: WireRuns, generated_at: int) -> Result<Seq<char>, Seq<char>> {
    match run_parts(w.runs@) {
        Err(e) => Err(e),
        Ok(parts) => Ok(
            "GoldCap_AppRuns = { v = "@ + int_text(w.v as int) + ", generatedAt = "@ + int_text(generated_at)
                + ", plan = '"@ + escape_lua(w.plan@) + "', freeLines = "@ + int_text(w.free_lines as int)
                + ", runs = { "@ + join(parts) + " }"@ + caps_section(w) + " }\n"@,
        ),
    }
}

fn push_positive_fact(out: &mut String, key: &str, v: Option<i64>)
    ensures
        final(out)@ == old(out)@ + positive_fact(key@, v),
{
    reveal(positive_fact);
    match v {
        Some(x) => if x > 0 {
            out.append(key);
            push_i64(out, x);
        },
        None => {},
    }
}

fn push_reagent(out: &mut String, r: &WireCraftReagent)
    ensures
        final(out)@ == old(out)@ + reagent_lua(*r),
{
    out.append("{ i = ");
    push_i64(out, r.item_id as i64);
    out.append(", q = ");
    push_i64(out, r.qty as i64);
    out.append(", n = '");
    push_escaped(out, r.name_en.as_str());
    out.append("', v = ");
    push_bool(out, r.vendor);
    push_positive_fact(out, ", u = ", r.usual);
    push_positive_fact(out, ", vu = ", r.vendor_unit);
    out.append(" }");
}

fn is_craft_usable(c: &WireCraft) -> (r: bool)
    ensures
        r == craft_usable(*c),
{
    if c.recipe_id == 0 || c.crafted_qty == 0 || c.cost_copper <= 0 || c.reagents.len() == 0 {
        return false;
    }
    let mut i: usize = 0;
    while i < c.reagents.len()
        invariant
            i <= c.reagents@.len(),
            forall|j: int| 0 <= j < i ==> #[trigger] reagent_ok(c.reagents@[j]),
        decreases c.reagents.len() - i,
    {
        if c.reagents[i].item_id == 0 || c.reagents[i].qty == 0 {
            assert(!reagent_ok(c.reagents@[i as int]));
            return false;
        }
        assert(reagent_ok(c.reagents@[i as int]));
        i = i + 1;
    }
    true
}

#[verifier::rlimit(60)]
fn push_craft(out: &mut String, c: &WireCraft)
    ensures
        final(out)@ == old(out)@ + craft_fact(Some(*c)),
{
    reveal(craft_fact);
    if !is_craft_usable(c) {
        return;
    }
    out.append(", cr = { r = ");
    push_i64(out, c.recipe_id as i64);
    out.append(", n = ");
    push_i64(out, c.crafted_qty as i64);
    out.append(", c = ");
    push_i64(out, c.cost_copper);
    out.append(", i = { ");
    let ghost before = out@;
    let mut i: usize = 0;
    while i < c.reagents.len()
        invariant
            i <= c.reagents@.len(),
            out@ == before + join(reagent_parts(c.reagents@.take(i as int))),
        decreases c.reagents.len() - i,
    {
        proof {
            lemma_join_push(reagent_parts(c.reagents@.take(i as int)), reagent_lua(c.reagents@[i as int]));
            assert(reagent_parts(c.reagents@.take(i + 1)) =~= reagent_parts(c.reagents@.take(i as int)).push(
                reagent_lua(c.reagents@[i as int]),
            ));
        }
        if i > 0 {
            out.append(", ");
        }
        push_reagent(out, &c.reagents[i]);
        i = i + 1;
    }
    assert(c.reagents@.take(i as int) =~= c.reagents@);
    out.append(" } }");
}

fn push_cheap_hour(out: &mut String, ch: &Option<WireCheapHour>)
    ensures
        final(out)@ == old(out)@ + cheap_hour_fact(*ch),
{
    reveal(cheap_hour_fact);
    match ch {
        Some(cheap) => if 0 <= cheap.hour && cheap.hour <= 23 {
            out.append(", ch = ");
            push_i64(out, cheap.hour);
            out.append(", cp = ");
            push_i64(out, cheap.pct);
        },
        None => {},
    }
}

fn push_min_ilvl(out: &mut String, m: Option<u32>)
    ensures
        final(out)@ == old(out)@ + min_ilvl_fact(m),
{
    reveal(min_ilvl_fact);
    match m {
        Some(x) => if x > 0 {
            out.append(", minIlvl = ");
            push_i64(out, x as i64);
        },
        None => {},
    }
}

fn push_realm(out: &mut String, r: &Option<WireRealm>)
    ensures
        final(out)@ == old(out)@ + realm_fact(*r),
{
    reveal(realm_fact);
    match r {
        Some(realm) => {
            let name = chars_of(realm.name.as_str());
            let (a, b) = trim_bounds(&name);
            if realm.id > 0 && a < b {
                out.append(", rl = { id = ");
                push_i64(out, realm.id as i64);
                out.append(", n = '");
                push_escaped_range(out, &name, a, b);
                out.append("' }");
            }
        },
        None => {},
    }
}

fn push_craft_fact(out: &mut String, c: &Option<WireCraft>)
    ensures
        final(out)@ == old(out)@ + craft_fact(*c),
{
    match c {
        Some(craft) => push_craft(out, craft),
        None => {
            reveal(craft_fact);
        },
    }
}

#[verifier::rlimit(40)]
fn push_line(out: &mut String, l: &WireRunLine)
    ensures
        final(out)@ == old(out)@ + line_lua(*l),
{
    out.append("{ i = ");
    push_i64(out, l.item_id as i64);
    out.append(", q = ");
    push_i64(out, l.qty as i64);
    out.append(", v = ");
    push_bool(out, l.vendor);
    out.append(", n = '");
    push_escaped(out, l.name_en.as_str());
    out.append("'");
    push_positive_fact(out, ", u = ", l.usual);
    push_positive_fact(out, ", vu = ", l.vendor_unit);
    push_cheap_hour(out, &l.cheap_hour);
    push_positive_fact(out, ", cc = ", l.cap);
    push_min_ilvl(out, l.min_ilvl);
    push_realm(out, &l.realm);
    push_craft_fact(out, &l.craft);
    out.append(" }");
}

/// Appends `prefix`, the trimmed text escaped, and `suffix` when something is
/// left after trimming; nothing otherwise.
fn push_shown(out: &mut String, prefix: &str, s: &str, suffix: &str)
    ensures
        final(out)@ == old(out)@ + match shown(s@) {
            Some(t) => prefix@ + escape_lua(t) + suffix@,
            None => Seq::empty(),
        },
{
    let v = chars_of(s);
    let (a, b) = trim_bounds(&v);
    if a < b {
        out.append(prefix);
        push_escaped_range(out, &v, a, b);
        out.append(suffix);
    }
}

fn push_name_fact(out: &mut String, n: &Option<String>)
    ensures
        final(out)@ == old(out)@ + name_fact(*n),
{
    reveal(name_fact);
    match n {
        Some(name) => {
            out.append("name = '");
            push_escaped(out, name.as_str());
            out.append("', ");
        },
        None => {},
    }
}

fn push_kind_fact(out: &mut String, k: &Option<String>)
    ensures
        final(out)@ == old(out)@ + kind_fact(*k),
{
    reveal(kind_fact);
    match k {
        Some(kind) => {
            let alert = String::from_str("alert");
            if *kind == alert {
                out.append("k = 'alert', ");
            }
        },
        None => {},
    }
}

fn push_by_fact(out: &mut String, by: &Option<String>)
    ensures
        final(out)@ == old(out)@ + by_fact(*by),
{
    reveal(by_fact);
    match by {
        Some(b) => push_shown(out, "by = '", b.as_str(), "', "),
        None => {},
    }
}

fn push_src_fact(out: &mut String, src: &Option<WireRunSource>)
    ensures
        final(out)@ == old(out)@ + src_fact(*src),
{
    reveal(src_fact);
    match src {
        Some(source) => push_shown(out, "src = '", source.label.as_str(), "', "),
        None => {},
    }
}

fn push_run(out: &mut String, r: &WireRun) -> (res: Result<(), String>)
    ensures
        match run_lua(*r) {
            Ok(t) => res is Ok && final(out)@ == old(out)@ + t,
            Err(e) => res matches Err(m) && m@ == e,
        },
{
    out.append("{ code = '");
    push_escaped(out, r.code.as_str());
    out.append("', ");
    push_name_fact(out, &r.name);
    push_kind_fact(out, &r.kind);
    push_by_fact(out, &r.shared_by);
    push_src_fact(out, &r.source);
    let updated_at = match parse_iso_utc(r.updated_at.as_str()) {
        Some(t) => t,
        None => {
            let mut msg = String::new();
            msg.append("runs: bad updatedAt ");
            let quoted = debug_quoted(r.updated_at.as_str());
            msg.append(quoted.as_str());
            msg.append(" on run ");
            msg.append(r.code.as_str());
            return Err(msg);
        },
    };
    out.append("updatedAt = ");
    push_i64(out, updated_at);
    out.append(", lines = { ");
    let ghost before = out@;
    let mut i: usize = 0;
    while i < r.lines.len()
        invariant
            i <= r.lines@.len(),
            out@ == before + join(line_parts(r.lines@.take(i as int))),
        decreases r.lines.len() - i,
    {
        proof {
            lemma_join_push(line_parts(r.lines@.take(i as int)), line_lua(r.lines@[i as int]));
            assert(line_parts(r.lines@.take(i + 1)) =~= line_parts(r.lines@.take(i as int)).push(
                line_lua(r.lines@[i as int]),
            ));
        }
        if i > 0 {
            out.append(", ");
        }
        push_line(out, &r.lines[i]);
        i = i + 1;
    }
    assert(r.lines@.take(i as int) =~= r.lines@);
    out.append(" } }");
    Ok(())
}

fn push_cap(out: &mut String, c: &WireCap, groups: &Vec<String>)
    ensures
        final(out)@ == old(out)@ + cap_lua(*c, groups@),
{
    out.append("{ i = ");
    push_i64(out, c.item_id as i64);
    out.append(", c = ");
    push_i64(out, c.cap);
    if c.min_ilvl > 0 {
        out.append(", l = ");
        push_i64(out, c.min_ilvl as i64);
    }
    match c.group {
        Some(g) => {
            if (g as usize) < groups.len() {
                let name = chars_of(groups[g as usize].as_str());
                let (a, b) = trim_bounds(&name);
                if a < b {
                    out.append(", g = ");
                    push_i64(out, g as i64 + 1);
                }
            }
        },
        None => {},
    }
    if c.manual {
        out.append(", m = true");
    }
    out.append(" }");
}

fn push_caps_section(out: &mut String, runs: &WireRuns)
    ensures
        final(out)@ == old(out)@ + caps_section(*runs),
{
    reveal(caps_section);
    let mut usable: usize = 0;
    let mut k: usize = 0;
    let mut caps_text = String::new();
    while k < runs.caps.len()
        invariant
            k <= runs.caps@.len(),
            usable == cap_parts(runs.caps@.take(k as int), runs.groups@).len(),
            caps_text@ == join(cap_parts(runs.caps@.take(k as int), runs.groups@)),
            usable <= k,
        decreases runs.caps.len() - k,
    {
        let ghost prev = cap_parts(runs.caps@.take(k as int), runs.groups@);
        assert(runs.caps@.take(k + 1).drop_last() =~= runs.caps@.take(k as int));
        assert(runs.caps@.take(k + 1).last() == runs.caps@[k as int]);
        let c = &runs.caps[k];
        if c.item_id > 0 && c.cap > 0 {
            proof {
                lemma_join_push(prev, cap_lua(*c, runs.groups@));
            }
            if usable > 0 {
                caps_text.append(", ");
            }
            push_cap(&mut caps_text, c, &runs.groups);
            usable = usable + 1;
        }
        k = k + 1;
    }
    assert(runs.caps@.take(k as int) =~= runs.caps@);
    if usable > 0 {
        out.append(", groups = { ");
        let ghost before_groups = out@;
        let mut g: usize = 0;
        while g < runs.groups.len()
            invariant
                g <= runs.groups@.len(),
                out@ == before_groups + join(group_parts(runs.groups@.take(g as int))),
            decreases runs.groups.len() - g,
        {
            proof {
                let item = "'"@ + escape_lua(runs.groups@[g as int]@) + "'"@;
                lemma_join_push(group_parts(runs.groups@.take(g as int)), item);
                assert(group_parts(runs.groups@.take(g + 1)) =~= group_parts(runs.groups@.take(g as int)).push(item));
            }
            if g > 0 {
                out.append(", ");
            }
            out.append("'");
            push_escaped(out, runs.groups[g].as_str());
            out.append("'");
            g = g + 1;
        }
        assert(runs.groups@.take(g as int) =~= runs.groups@);
        out.append(" }, caps = { ");
        out.append(caps_text.as_str());
        out.append(" }");
    }
}

/// Renders `Runs.lua`: the addon-side buy list under the short field names the
/// rest of `GoldCap_AppData` uses. Each run's `updatedAt` is re-derived from its
/// ISO timestamp; one that does not parse fails the whole render rather than
/// rendering as the epoch.
pub fn render_runs_lua(runs: &WireRuns, generated_at: i64) -> (r: Result<String, String>)
    ensures
        match runs_lua(*runs, generated_at as int) {
            Ok(t) => r matches Ok(s) && s@ == t,
            Err(e) => r matches Err(m) && m@ == e,
        },
{
    let mut out = String::new();
    out.append("GoldCap_AppRuns = { v = ");
    push_i64(&mut out, runs.v as i64);
    out.append(", generatedAt = ");
    push_i64(&mut out, generated_at);
    out.append(", plan = '");
    push_escaped(&mut out, runs.plan.as_str());
    out.append("', freeLines = ");
    push_i64(&mut out, runs.free_lines as i64);
    out.append(", runs = { ");
    let ghost before = out@;
    let mut i: usize = 0;
    while i < runs.runs.len()
        invariant
            i <= runs.runs@.len(),
            run_parts(runs.runs@.take(i as int)) matches Ok(parts) && out@ == before + join(parts),
        decreases runs.runs.len() - i,
    {
        let ghost parts = run_parts(runs.runs@.take(i as int))->Ok_0;
        assert(runs.runs@.take(i + 1).drop_last() =~= runs.runs@.take(i as int));
        assert(runs.runs@.take(i + 1).last() == runs.runs@[i as int]);
        if i > 0 {
            out.append(", ");
        }
        match push_run(&mut out, &runs.runs[i]) {
            Ok(()) => {},
            Err(e) => {
                proof {
                    lemma_first_refusal_stands(runs.runs@, i as int);
                }
                return Err(e);
            },
        }
        proof {
            lemma_join_push(parts, run_lua(runs.runs@[i as int])->Ok_0);
        }
        i = i + 1;
    }
    assert(runs.runs@.take(i as int) =~= runs.runs@);
    out.append(" }");
    push_caps_section(&mut out, runs);
    out.append(" }\n");
    Ok(out)
}

/// When every run before `i` renders and run `i` is refused, the whole list is
/// refused with run `i`'s reason.
proof fn lemma_first_refusal_stands(rs: Seq<WireRun>, i: int)
    requires
        0 <= i < rs.len(),
        run_parts(rs.take(i)) is Ok,
        run_lua(rs[i]) is Err,
    ensures
        run_parts(rs) == Err::<Seq<Seq<char>>, Seq<char>>(run_lua(rs[i])->Err_0),
    decreases rs.len() - i,
{
    assert(rs.take(i + 1).drop_last() =~= rs.take(i));
    assert(rs.take(i + 1).last() == rs[i]);
    lemma_refusal_extends(rs, i + 1);
}

proof fn lemma_refusal_extends(rs: Seq<WireRun>, k: int)
    requires
        0 <= k <= rs.len(),
        run_parts(rs.take(k)) is Err,
    ensures
        run_parts(rs) == run_parts(rs.take(k)),
    decreases rs.len() - k,
{
    if k == rs.len() {
        assert(rs.take(k) =~= rs);
    } else {
        assert(rs.take(k + 1).drop_last() =~= rs.take(k));
        lemma_refusal_extends(rs, k + 1);
    }
}

} // verus!

verus! {

/// The reason a payload in a contract this build does not know is refused.
pub open spec fn unsupported_version_text(v: u32) -> Seq<char> {
    "runs: unsupported version "@ + int_text(v as int)
}

/// What the write seam puts in `Runs.lua`, or why it writes nothing: a failed
/// fetch passes its error through, a version other than 1, 2 or 3 is refused,
/// and otherwise the render decides.
pub open spec fn runs_file_spec(fetched: Result<WireRuns, String>, generated_at: int) -> Result<Seq<char>, Seq<char>> {
    match fetched {
        Err(e) => Err(e@),
        Ok(w) => if !(1 <= w.v <= 3) {
            Err(unsupported_version_text(w.v))
        } else {
            runs_lua(w, generated_at)
        },
    }
}

/// The decision behind the `Runs.lua` write seam: the contents to write, or
/// the error that leaves a previously written file untouched. Every failure
/// (a fetch error, a version this build does not support, an unparseable
/// `updatedAt`) comes back before anything would be written.
pub fn apply_fetch_result(fetched: Result<WireRuns, String>, generated_at: i64) -> (r: Result<String, String>)
    ensures
        match runs_file_spec(fetched, generated_at as int) {
            Ok(t) => r matches Ok(s) && s@ == t,
            Err(e) => r matches Err(m) && m@ == e,
        },
{
    let runs = match fetched {
        Ok(runs) => runs,
        Err(e) => {
            return Err(e);
        },
    };
    if !(1 <= runs.v && runs.v <= 3) {
        let mut msg = String::new();
        msg.append("runs: unsupported version ");
        push_i64(&mut msg, runs.v as i64);
        return Err(msg);
    }
    render_runs_lua(&runs, generated_at)
}

} // verus!

verus! {

/// A run line's cheap hour is written whenever it is a clock hour, 0 to 23
/// UTC (midnight included): the line then reads as the same line without a
/// cheap hour, with `, ch = <hour>, cp = <pct>` put in. Any other hour is
/// dropped and the line reads as if there were none.
pub proof fn law_cheap_hour_is_written(l: WireRunLine)
    ensures
        ({
            let bare = WireRunLine { cheap_hour: None, ..l };
            match l.cheap_hour {
                Some(ch) => if 0 <= ch.hour && ch.hour <= 23 {
                    exists|k: int| 0 <= k <= line_lua(bare).len() && line_lua(l) == line_lua(bare).take(k)
                        + (", ch = "@ + int_text(ch.hour as int) + ", cp = "@ + int_text(ch.pct as int))
                        + line_lua(bare).skip(k)
                } else {
                    line_lua(l) == line_lua(bare)
                },
                None => line_lua(l) == line_lua(bare),
            }
        }),
{
    reveal(cheap_hour_fact);
    let bare = WireRunLine { cheap_hour: None, ..l };
    let a = "{ i = "@ + int_text(l.item_id as int) + ", q = "@ + int_text(l.qty as int) + ", v = "@
        + bool_text(l.vendor) + ", n = '"@ + escape_lua(l.name_en@) + "'"@
        + positive_fact(", u = "@, l.usual) + positive_fact(", vu = "@, l.vendor_unit);
    let b = positive_fact(", cc = "@, l.cap) + min_ilvl_fact(l.min_ilvl) + realm_fact(l.realm)
        + craft_fact(l.craft) + " }"@;
    assert(cheap_hour_fact(None) =~= Seq::<char>::empty());
    assert(line_lua(bare) =~= a + b);
    assert(line_lua(l) =~= a + cheap_hour_fact(l.cheap_hour) + b);
    match l.cheap_hour {
        Some(ch) => if 0 <= ch.hour && ch.hour <= 23 {
            let x = ", ch = "@ + int_text(ch.hour as int) + ", cp = "@ + int_text(ch.pct as int);
            assert((a + b).take(a.len() as int) =~= a);
            assert((a + b).skip(a.len() as int) =~= b);
            assert(line_lua(l) =~= line_lua(bare).take(a.len() as int) + x + line_lua(bare).skip(a.len() as int));
        } else {
        },
        None => {},
    }
}

} // verus!

verus! {

/// A run found inside a piece is found inside anything the piece is part of.
proof fn lemma_infix_in_concat(a: Seq<char>, t: Seq<char>, b: Seq<char>, x: Seq<char>)
    requires
        has_infix(t, x),
    ensures
        has_infix(a + t + b, x),
{
    let i = choose|i: int| infix_at(t, x, i);
    let s = a + t + b;
    assert(s.subrange(a.len() + i, a.len() + i + x.len()) =~= t.subrange(i, i + x.len()));
    assert(infix_at(s, x, a.len() + i));
}

/// Every part of a joined list appears in the joined text.
proof fn lemma_join_has_part(parts: Seq<Seq<char>>, j: int)
    requires
        0 <= j < parts.len(),
    ensures
        has_infix(join(parts), parts[j]),
    decreases parts.len(),
{
    if parts.len() == 1 {
        assert(join(parts).subrange(0, parts[0].len() as int) =~= parts[0]);
        assert(infix_at(join(parts), parts[j], 0));
    } else {
        let prev = parts.drop_last();
        if j < parts.len() - 1 {
            lemma_join_has_part(prev, j);
            assert(prev[j] == parts[j]);
            lemma_infix_in_concat(Seq::empty(), join(prev), ", "@ + parts.last(), parts[j]);
            assert(Seq::<char>::empty() + join(prev) + (", "@ + parts.last()) =~= join(parts));
        } else {
            let s = join(parts);
            reveal_strlit(", ");
            let off: int = join(prev).len() as int + 2;
            assert(s =~= join(prev) + ", "@ + parts.last());
            assert(s.subrange(off, off + parts.last().len()) =~= parts.last());
            assert(infix_at(s, parts[j], off));
        }
    }
}

/// A run of characters inside a run inside `s` is inside `s`.
proof fn lemma_infix_trans(s: Seq<char>, t: Seq<char>, x: Seq<char>)
    requires
        has_infix(s, t),
        has_infix(t, x),
    ensures
        has_infix(s, x),
{
    let i = choose|i: int| infix_at(s, t, i);
    let k = choose|k: int| infix_at(t, x, k);
    assert(s.subrange(i + k, i + k + x.len()) =~= t.subrange(k, k + x.len()));
    assert(infix_at(s, x, i + k));
}

/// A rendered run list is every run rendered, in order.
proof fn lemma_run_parts_ok(rs: Seq<WireRun>)
    requires
        run_parts(rs) is Ok,
    ensures
        run_parts(rs)->Ok_0.len() == rs.len(),
        forall|i: int| 0 <= i < rs.len() ==> run_lua(#[trigger] rs[i]) == Ok::<Seq<char>, Seq<char>>(run_parts(rs)->Ok_0[i]),
    decreases rs.len(),
{
    if rs.len() > 0 {
        let prev = rs.drop_last();
        lemma_run_parts_ok(prev);
        assert forall|i: int| 0 <= i < rs.len() implies run_lua(#[trigger] rs[i]) == Ok::<Seq<char>, Seq<char>>(run_parts(rs)->Ok_0[i]) by {
            if i < rs.len() - 1 {
                assert(rs[i] == prev[i]);
            }
        }
    }
}

/// A rendered run holds each of its rendered lines.
proof fn lemma_run_holds_line(r: WireRun, j: int)
    requires
        run_lua(r) is Ok,
        0 <= j < r.lines@.len(),
    ensures
        has_infix(run_lua(r)->Ok_0, line_lua(r.lines@[j])),
{
    let t = iso_utc_spec(vstd::utf8::encode_utf8(r.updated_at@))->0;
    assert(line_parts(r.lines@)[j] == line_lua(r.lines@[j]));
    lemma_join_has_part(line_parts(r.lines@), j);
    let head = "{ code = '"@ + escape_lua(r.code@) + "', "@ + name_fact(r.name) + kind_fact(r.kind)
        + by_fact(r.shared_by) + src_fact(r.source) + "updatedAt = "@ + int_text(t as int) + ", lines = { "@;
    lemma_infix_in_concat(head, join(line_parts(r.lines@)), " } }"@, line_lua(r.lines@[j]));
    assert(run_lua(r)->Ok_0 =~= head + join(line_parts(r.lines@)) + " } }"@);
}

/// A rendered `Runs.lua` holds each of its rendered runs.
proof fn lemma_file_holds_run(w: WireRuns, generated_at: int, i: int)
    requires
        runs_lua(w, generated_at) is Ok,
        0 <= i < w.runs@.len(),
    ensures
        run_lua(w.runs@[i]) is Ok,
        has_infix(runs_lua(w, generated_at)->Ok_0, run_lua(w.runs@[i])->Ok_0),
{
    lemma_run_parts_ok(w.runs@);
    let parts = run_parts(w.runs@)->Ok_0;
    lemma_join_has_part(parts, i);
    let front = "GoldCap_AppRuns = { v = "@ + int_text(w.v as int) + ", generatedAt = "@ + int_text(generated_at)
        + ", plan = '"@ + escape_lua(w.plan@) + "', freeLines = "@ + int_text(w.free_lines as int) + ", runs = { "@;
    lemma_infix_in_concat(front, join(parts), " }"@ + caps_section(w) + " }\n"@, parts[i]);
    assert(runs_lua(w, generated_at)->Ok_0 =~= front + join(parts) + (" }"@ + caps_section(w) + " }\n"@));
}

/// In a rendered `Runs.lua`, every line whose cheap hour is a clock hour, 0
/// to 23 UTC, carries `, ch = <hour>, cp = <pct>`.
pub proof fn law_rendered_runs_keep_cheap_hours(w: WireRuns, generated_at: int, i: int, j: int)
    requires
        runs_lua(w, generated_at) is Ok,
        0 <= i < w.runs@.len(),
        0 <= j < w.runs@[i].lines@.len(),
        w.runs@[i].lines@[j].cheap_hour matches Some(c) && 0 <= c.hour <= 23,
    ensures
        ({
            let c = w.runs@[i].lines@[j].cheap_hour->0;
            has_infix(runs_lua(w, generated_at)->Ok_0, ", ch = "@ + int_text(c.hour as int) + ", cp = "@ + int_text(c.pct as int))
        }),
{
    let l = w.runs@[i].lines@[j];
    let c = l.cheap_hour->0;
    let x = ", ch = "@ + int_text(c.hour as int) + ", cp = "@ + int_text(c.pct as int);
    law_cheap_hour_is_written(l);
    let bare = WireRunLine { cheap_hour: None, ..l };
    let k = choose|k: int| 0 <= k <= line_lua(bare).len() && line_lua(l) == line_lua(bare).take(k) + x
        + line_lua(bare).skip(k);
    assert(line_lua(l).subrange(k, k + x.len()) =~= x);
    assert(infix_at(line_lua(l), x, k));
    lemma_file_holds_run(w, generated_at, i);
    lemma_run_holds_line(w.runs@[i], j);
    let out = runs_lua(w, generated_at)->Ok_0;
    lemma_infix_trans(out, run_lua(w.runs@[i])->Ok_0, line_lua(l));
    lemma_infix_trans(out, line_lua(l), x);
}

} // verus!
