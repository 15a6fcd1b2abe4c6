//! The addon's ledger as the companion reads it out of
//! `SavedVariables/GoldCap.lua`: sales and buys, the gold series and live
//! auction observations, plus the rules that decide which rows and which
//! optional facts survive the read.
use vstd::prelude::*;

verus! {

/// One ledger row, under the addon's own field vocabulary.
#[derive(Debug, Clone, PartialEq)]
pub struct LedgerEntry {
    pub key: String,
    pub kind: String,
    pub source: String,
    pub item_id: Option<i64>,
    pub item_name: Option<String>,
    pub qty: i64,
    pub total: i64,
    pub cut: i64,
    pub deposit: i64,
    pub pending: bool,
    pub mv: Option<i64>,
    pub at: i64,
    pub character: Option<String>,
    pub region: Option<String>,
    pub decision_version: Option<i64>,
    pub decision_status: Option<String>,
    pub decision_reasons: Option<Vec<String>>,
    pub stress_unit: Option<i64>,
    pub expected_profit: Option<i64>,
    pub recommended_quantity: Option<i64>,
    pub source_at: Option<i64>,
}

/// One point of a character's gold series.
#[derive(Debug, Clone, PartialEq)]
pub struct GoldPoint {
    pub character: String,
    pub region: Option<String>,
    pub copper: i64,
    pub at: i64,
}

/// One price level of a live auction observation: unit price and quantity.
#[derive(Debug, Clone, PartialEq)]
pub struct PriceLevel {
    pub unit: i64,
    pub qty: i64,
}

/// What the addon saw of one item live at the auction house.
#[derive(Debug, Clone, PartialEq)]
pub struct LiveObservation {
    pub item_id: i64,
    pub region: String,
    pub scanned_at: i64,
    pub min_unit: i64,
    pub listings: Option<i64>,
    pub total_qty: Option<i64>,
    pub levels: Option<Vec<PriceLevel>>,
}

/// Everything read out of one SavedVariables file.
#[derive(Debug, Clone, PartialEq)]
pub struct LedgerData {
    pub entries: Vec<LedgerEntry>,
    pub gold: Vec<GoldPoint>,
    pub observations: Vec<LiveObservation>,
}

impl Default for LedgerData {
    fn default() -> (r: LedgerData)
        ensures
            r.entries@.len() == 0,
            r.gold@.len() == 0,
            r.observations@.len() == 0,
    {
        LedgerData { entries: Vec::new(), gold: Vec::new(), observations: Vec::new() }
    }
}

} // verus!

verus! {

/// A value read out of the addon's Lua tables, as plain data. A number that is
/// not an integer carries the two readings the ledger uses: truncated toward
/// zero (saturating), and exact (only when it is finite, whole and strictly
/// inside the `i64` range).
#[derive(Debug, Clone, PartialEq)]
pub enum LuaValue {
    Nil,
    Bool(bool),
    /// A string that is valid UTF-8.
    Str(String),
    Int(i64),
    Number { truncated: i64, exact: Option<i64> },
    /// A table, by its sequence part: each element as a string when it is one.
    Table(Vec<Option<String>>),
    /// Anything else (a function, a string that is not UTF-8, ...).
    Other,
}

/// The fields of one `GoldCapDB.ledger` row the companion reads.
#[derive(Debug, Clone)]
pub struct LedgerRow {
    pub key: LuaValue,
    pub kind: LuaValue,
    pub source: LuaValue,
    pub item_id: LuaValue,
    pub item_name: LuaValue,
    pub qty: LuaValue,
    pub total: LuaValue,
    pub cut: LuaValue,
    pub deposit: LuaValue,
    pub pending: LuaValue,
    pub mv: LuaValue,
    pub at: LuaValue,
    pub character: LuaValue,
    pub region: LuaValue,
    pub decision_version: LuaValue,
    pub decision_status: LuaValue,
    pub decision_reasons: LuaValue,
    pub stress_unit: LuaValue,
    pub expected_profit: LuaValue,
    pub recommended_quantity: LuaValue,
    pub source_at: LuaValue,
}

/// The fields of one `GoldCapDB.gold` row the companion reads.
#[derive(Debug, Clone)]
pub struct GoldRow {
    pub character: LuaValue,
    pub region: LuaValue,
    pub copper: LuaValue,
    pub at: LuaValue,
}

pub open spec fn string_of(v: LuaValue) -> Option<Seq<char>> {
    match v {
        LuaValue::Str(s) => Some(s@),
        _ => None,
    }
}

pub open spec fn int_of(v: LuaValue) -> Option<i64> {
    match v {
        LuaValue::Int(i) => Some(i),
        LuaValue::Number { truncated, .. } => Some(truncated),
        _ => None,
    }
}

pub open spec fn exact_int_of(v: LuaValue) -> Option<i64> {
    match v {
        LuaValue::Int(i) => Some(i),
        LuaValue::Number { exact, .. } => exact,
        _ => None,
    }
}

pub open spec fn flag_of(v: LuaValue) -> bool {
    v == LuaValue::Bool(true)
}

/// A table whose every sequence element is a string, as those strings.
pub open spec fn strings_of(v: LuaValue) -> Option<Seq<Seq<char>>> {
    match v {
        LuaValue::Table(elems) => if forall|i: int| 0 <= i < elems@.len() ==> (#[trigger] elems@[i]) is Some {
            Some(elems@.map_values(|e: Option<String>| e->0@))
        } else {
            None
        },
        _ => None,
    }
}

pub open spec fn opt_view(o: Option<String>) -> Option<Seq<char>> {
    match o {
        Some(s) => Some(s@),
        None => None,
    }
}

pub open spec fn views_of(v: Seq<String>) -> Seq<Seq<char>> {
    v.map_values(|s: String| s@)
}

pub fn opt_string(v: &LuaValue) -> (r: Option<String>)
    ensures
        opt_view(r) == string_of(*v),
{
    match v {
        LuaValue::Str(s) => Some(s.clone()),
        _ => None,
    }
}

pub fn opt_int(v: &LuaValue) -> (r: Option<i64>)
    ensures
        r == int_of(*v),
{
    match v {
        LuaValue::Int(i) => Some(*i),
        LuaValue::Number { truncated, .. } => Some(*truncated),
        _ => None,
    }
}

pub fn opt_exact_int(v: &LuaValue) -> (r: Option<i64>)
    ensures
        r == exact_int_of(*v),
{
    match v {
        LuaValue::Int(i) => Some(*i),
        LuaValue::Number { exact, .. } => *exact,
        _ => None,
    }
}

pub fn flag(v: &LuaValue) -> (r: bool)
    ensures
        r == flag_of(*v),
{
    match v {
        LuaValue::Bool(b) => *b,
        _ => false,
    }
}

pub fn opt_string_sequence(v: &LuaValue) -> (r: Option<Vec<String>>)
    ensures
        match r {
            Some(out) => strings_of(*v) == Some(views_of(out@)),
            None => strings_of(*v) is None,
        },
{
    match v {
        LuaValue::Table(elems) => {
            let mut out: Vec<String> = Vec::new();
            let mut i: usize = 0;
            while i < elems.len()
                invariant
                    *v == LuaValue::Table(*elems),
                    i <= elems@.len(),
                    out@.len() == i,
                    forall|j: int| 0 <= j < i ==> (#[trigger] elems@[j]) is Some && out@[j]@ == elems@[j]->0@,
                decreases elems.len() - i,
            {
                match &elems[i] {
                    Some(s) => {
                        out.push(s.clone());
                    },
                    None => {
                        assert(elems@[i as int] is None);
                        assert(!(forall|k: int| 0 <= k < elems@.len() ==> (#[trigger] elems@[k]) is Some));
                        return None;
                    },
                }
                i = i + 1;
            }
            assert(views_of(out@) =~= elems@.map_values(|e: Option<String>| e->0@));
            Some(out)
        },
        _ => None,
    }
}

/// How many UTF-16 code units `s` takes.
pub open spec fn utf16_len(s: Seq<char>) -> nat
    decreases s.len(),
{
    if s.len() == 0 {
        0
    } else {
        utf16_len(s.drop_last()) + if (s.last() as u32) >= 0x10000 { 2nat } else { 1nat }
    }
}

/// Whether `s` is empty or longer than 64 UTF-16 code units.
fn reason_unusable(s: &String) -> (r: bool)
    ensures
        r == (s@.len() == 0 || utf16_len(s@) > 64),
{
    let v = crate::text::chars_of(s.as_str());
    if v.len() == 0 {
        return true;
    }
    let mut units: usize = 0;
    let mut i: usize = 0;
    while i < v.len()
        invariant
            i <= v@.len(),
            v@ == s@,
            units == if utf16_len(v@.take(i as int)) > 65 { 65 } else { utf16_len(v@.take(i as int)) },
        decreases v.len() - i,
    {
        assert(v@.take(i + 1).drop_last() =~= v@.take(i as int));
        let w: usize = if (v[i] as u32) >= 0x10000 { 2 } else { 1 };
        units = if units >= 65 || units + w > 65 { 65 } else { units + w };
        i = i + 1;
    }
    assert(v@.take(i as int) =~= v@);
    units > 64
}

/// Most copper a decision amount may state.
pub const MAX_COPPER: i64 = 1_000_000_000_000_000;

/// The seven decision-evidence fields of a sniper buy, all of them present.
#[derive(Debug, Clone)]
pub struct DecisionEvidence {
    pub decision_version: i64,
    pub decision_status: String,
    pub decision_reasons: Vec<String>,
    pub stress_unit: i64,
    pub expected_profit: i64,
    pub recommended_quantity: i64,
    pub source_at: i64,
}

/// The evidence group is usable: all seven fields read, the version in
/// 1..=32767, a known status, at most 32 reasons each non-empty and at most
/// 64 UTF-16 units, both copper amounts in 0..=MAX_COPPER, and a positive
/// quantity and source time.
pub open spec fn evidence_ok(row: LedgerRow) -> bool {
    &&& exact_int_of(row.decision_version) matches Some(v) && 1 <= v <= 32767
    &&& string_of(row.decision_status) matches Some(st)
        && (st == "SAFE"@ || st == "WATCH"@ || st == "AVOID"@)
    &&& strings_of(row.decision_reasons) matches Some(rs) && rs.len() <= 32
        && (forall|i: int| 0 <= i < rs.len() ==> (#[trigger] rs[i]).len() > 0 && utf16_len(rs[i]) <= 64)
    &&& exact_int_of(row.stress_unit) matches Some(s) && 0 <= s <= MAX_COPPER
    &&& exact_int_of(row.expected_profit) matches Some(p) && 0 <= p <= MAX_COPPER
    &&& exact_int_of(row.recommended_quantity) matches Some(q) && q > 0
    &&& exact_int_of(row.source_at) matches Some(t) && t > 0
}

/// The upload API takes decision evidence only as a complete group: a row with
/// any member absent or out of bounds carries none of it.
pub fn decision_evidence(row: &LedgerRow) -> (r: Option<DecisionEvidence>)
    ensures
        r is Some <==> evidence_ok(*row),
        r matches Some(e) ==> {
            &&& Some(e.decision_version) == exact_int_of(row.decision_version)
            &&& Some(e.decision_status@) == string_of(row.decision_status)
            &&& Some(views_of(e.decision_reasons@)) == strings_of(row.decision_reasons)
            &&& Some(e.stress_unit) == exact_int_of(row.stress_unit)
            &&& Some(e.expected_profit) == exact_int_of(row.expected_profit)
            &&& Some(e.recommended_quantity) == exact_int_of(row.recommended_quantity)
            &&& Some(e.source_at) == exact_int_of(row.source_at)
        },
{
    let decision_version = match opt_exact_int(&row.decision_version) { Some(x) => x, None => { return None; } };
    let decision_status = match opt_string(&row.decision_status) { Some(x) => x, None => { return None; } };
    let decision_reasons = match opt_string_sequence(&row.decision_reasons) { Some(x) => x, None => { return None; } };
    let stress_unit = match opt_exact_int(&row.stress_unit) { Some(x) => x, None => { return None; } };
    let expected_profit = match opt_exact_int(&row.expected_profit) { Some(x) => x, None => { return None; } };
    let recommended_quantity = match opt_exact_int(&row.recommended_quantity) { Some(x) => x, None => { return None; } };
    let source_at = match opt_exact_int(&row.source_at) { Some(x) => x, None => { return None; } };
    if !(1 <= decision_version && decision_version <= 32_767) {
        return None;
    }
    let known = crate::text::str_eq(decision_status.as_str(), "SAFE")
        || crate::text::str_eq(decision_status.as_str(), "WATCH")
        || crate::text::str_eq(decision_status.as_str(), "AVOID");
    if !known || decision_reasons.len() > 32 {
        return None;
    }
    let ghost rs = views_of(decision_reasons@);
    let mut i: usize = 0;
    while i < decision_reasons.len()
        invariant
            i <= decision_reasons@.len(),
            rs == views_of(decision_reasons@),
            strings_of(row.decision_reasons) == Some(rs),
            forall|j: int| 0 <= j < i ==> (#[trigger] rs[j]).len() > 0 && utf16_len(rs[j]) <= 64,
        decreases decision_reasons.len() - i,
    {
        if reason_unusable(&decision_reasons[i]) {
            assert(!((rs[i as int]).len() > 0 && utf16_len(rs[i as int]) <= 64));
            return None;
        }
        i = i + 1;
    }
    if !(0 <= stress_unit && stress_unit <= MAX_COPPER)
        || !(0 <= expected_profit && expected_profit <= MAX_COPPER)
        || recommended_quantity <= 0
        || source_at <= 0
    {
        return None;
    }
    Some(DecisionEvidence {
        decision_version,
        decision_status,
        decision_reasons,
        stress_unit,
        expected_profit,
        recommended_quantity,
        source_at,
    })
}

} // verus!

verus! {

/// A ledger row the upload can work with: key, kind and source are strings,
/// and quantity, total and time are numbers. Without a key there is no dedupe,
/// and a row that cannot be deduped would land again on every sync.
pub open spec fn row_usable(row: LedgerRow) -> bool {
    &&& string_of(row.key) is Some
    &&& string_of(row.kind) is Some
    &&& string_of(row.source) is Some
    &&& int_of(row.qty) is Some
    &&& int_of(row.total) is Some
    &&& int_of(row.at) is Some
}

/// `e` is what the usable row `row` reads as: its required fields, its
/// optional ones where present (cut and deposit default to 0, `pending` is
/// true only for a literal `true`), and the decision evidence as a whole
/// group or not at all.
pub open spec fn entry_from(e: LedgerEntry, row: LedgerRow) -> bool {
    &&& Some(e.key@) == string_of(row.key)
    &&& Some(e.kind@) == string_of(row.kind)
    &&& Some(e.source@) == string_of(row.source)
    &&& e.item_id == int_of(row.item_id)
    &&& opt_view(e.item_name) == string_of(row.item_name)
    &&& Some(e.qty) == int_of(row.qty)
    &&& Some(e.total) == int_of(row.total)
    &&& e.cut == (match int_of(row.cut) { Some(c) => c, None => 0 })
    &&& e.deposit == (match int_of(row.deposit) { Some(d) => d, None => 0 })
    &&& e.pending == flag_of(row.pending)
    &&& e.mv == int_of(row.mv)
    &&& Some(e.at) == int_of(row.at)
    &&& opt_view(e.character) == string_of(row.character)
    &&& opt_view(e.region) == string_of(row.region)
    &&& if evidence_ok(row) {
        &&& e.decision_version == exact_int_of(row.decision_version)
        &&& opt_view(e.decision_status) == string_of(row.decision_status)
        &&& e.decision_reasons matches Some(rs) && Some(views_of(rs@)) == strings_of(row.decision_reasons)
        &&& e.stress_unit == exact_int_of(row.stress_unit)
        &&& e.expected_profit == exact_int_of(row.expected_profit)
        &&& e.recommended_quantity == exact_int_of(row.recommended_quantity)
        &&& e.source_at == exact_int_of(row.source_at)
    } else {
        &&& e.decision_version is None
        &&& e.decision_status is None
        &&& e.decision_reasons is None
        &&& e.stress_unit is None
        &&& e.expected_profit is None
        &&& e.recommended_quantity is None
        &&& e.source_at is None
    }
}

/// One ledger row as an entry, or `None` when it lacks a required field.
pub fn ledger_entry(row: &LedgerRow) -> (r: Option<LedgerEntry>)
    ensures
        r is Some <==> row_usable(*row),
        r matches Some(e) ==> entry_from(e, *row),
{
    let key = match opt_string(&row.key) { Some(x) => x, None => { return None; } };
    let kind = match opt_string(&row.kind) { Some(x) => x, None => { return None; } };
    let source = match opt_string(&row.source) { Some(x) => x, None => { return None; } };
    let qty = match opt_int(&row.qty) { Some(x) => x, None => { return None; } };
    let total = match opt_int(&row.total) { Some(x) => x, None => { return None; } };
    let at = match opt_int(&row.at) { Some(x) => x, None => { return None; } };
    let evidence = decision_evidence(row);
    let (decision_version, decision_status, decision_reasons, stress_unit, expected_profit, recommended_quantity, source_at) =
        match evidence {
            Some(ev) => (
                Some(ev.decision_version),
                Some(ev.decision_status),
                Some(ev.decision_reasons),
                Some(ev.stress_unit),
                Some(ev.expected_profit),
                Some(ev.recommended_quantity),
                Some(ev.source_at),
            ),
            None => (None, None, None, None, None, None, None),
        };
    Some(LedgerEntry {
        key,
        kind,
        source,
        item_id: opt_int(&row.item_id),
        item_name: opt_string(&row.item_name),
        qty,
        total,
        cut: match opt_int(&row.cut) { Some(c) => c, None => 0 },
        deposit: match opt_int(&row.deposit) { Some(d) => d, None => 0 },
        pending: flag(&row.pending),
        mv: opt_int(&row.mv),
        at,
        character: opt_string(&row.character),
        region: opt_string(&row.region),
        decision_version,
        decision_status,
        decision_reasons,
        stress_unit,
        expected_profit,
        recommended_quantity,
        source_at,
    })
}

/// A gold row the series can use: a character name, a copper amount and a time.
pub open spec fn gold_usable(row: GoldRow) -> bool {
    string_of(row.character) is Some && int_of(row.copper) is Some && int_of(row.at) is Some
}

pub open spec fn point_from(g: GoldPoint, row: GoldRow) -> bool {
    &&& Some(g.character@) == string_of(row.character)
    &&& opt_view(g.region) == string_of(row.region)
    &&& Some(g.copper) == int_of(row.copper)
    &&& Some(g.at) == int_of(row.at)
}

/// One gold row as a point of the series, or `None` when it lacks a field.
pub fn gold_point(row: &GoldRow) -> (r: Option<GoldPoint>)
    ensures
        r is Some <==> gold_usable(*row),
        r matches Some(g) ==> point_from(g, *row),
{
    let character = match opt_string(&row.character) { Some(x) => x, None => { return None; } };
    let copper = match opt_int(&row.copper) { Some(x) => x, None => { return None; } };
    let at = match opt_int(&row.at) { Some(x) => x, None => { return None; } };
    Some(GoldPoint { character, region: opt_string(&row.region), copper, at })
}

/// The usable ledger rows, in file order.
pub open spec fn usable_rows(rows: Seq<LedgerRow>) -> Seq<LedgerRow>
    decreases rows.len(),
{
    if rows.len() == 0 {
        Seq::empty()
    } else if row_usable(rows.last()) {
        usable_rows(rows.drop_last()).push(rows.last())
    } else {
        usable_rows(rows.drop_last())
    }
}

/// The usable gold rows, in file order.
pub open spec fn usable_gold(rows: Seq<GoldRow>) -> Seq<GoldRow>
    decreases rows.len(),
{
    if rows.len() == 0 {
        Seq::empty()
    } else if gold_usable(rows.last()) {
        usable_gold(rows.drop_last()).push(rows.last())
    } else {
        usable_gold(rows.drop_last())
    }
}

/// Everything one SavedVariables file holds, from its `ledger` and `gold`
/// rows: each usable row in file order, the others skipped. A file without
/// either table reads as empty, never as a failure.
pub fn ledger_data(ledger: &Vec<LedgerRow>, gold: &Vec<GoldRow>) -> (r: LedgerData)
    ensures
        r.entries@.len() == usable_rows(ledger@).len(),
        forall|i: int| 0 <= i < r.entries@.len() ==> entry_from(#[trigger] r.entries@[i], usable_rows(ledger@)[i]),
        r.gold@.len() == usable_gold(gold@).len(),
        forall|i: int| 0 <= i < r.gold@.len() ==> point_from(#[trigger] r.gold@[i], usable_gold(gold@)[i]),
        r.observations@.len() == 0,
{
    let mut entries: Vec<LedgerEntry> = Vec::new();
    let mut i: usize = 0;
    while i < ledger.len()
        invariant
            i <= ledger@.len(),
            entries@.len() == usable_rows(ledger@.take(i as int)).len(),
            forall|j: int| 0 <= j < entries@.len() ==> entry_from(#[trigger] entries@[j], usable_rows(ledger@.take(i as int))[j]),
        decreases ledger.len() - i,
    {
        assert(ledger@.take(i + 1).drop_last() =~= ledger@.take(i as int));
        match ledger_entry(&ledger[i]) {
            Some(e) => {
                let ghost before = entries@;
                entries.push(e);
                assert forall|j: int| 0 <= j < entries@.len() implies entry_from(#[trigger] entries@[j], usable_rows(ledger@.take(i + 1))[j]) by {
                    if j < before.len() {
                        assert(entries@[j] == before[j]);
                    }
                }
            },
            None => {},
        }
        i = i + 1;
    }
    assert(ledger@.take(i as int) =~= ledger@);
    let mut points: Vec<GoldPoint> = Vec::new();
    let mut k: usize = 0;
    while k < gold.len()
        invariant
            k <= gold@.len(),
            points@.len() == usable_gold(gold@.take(k as int)).len(),
            forall|j: int| 0 <= j < points@.len() ==> point_from(#[trigger] points@[j], usable_gold(gold@.take(k as int))[j]),
        decreases gold.len() - k,
    {
        assert(gold@.take(k + 1).drop_last() =~= gold@.take(k as int));
        match gold_point(&gold[k]) {
            Some(g) => {
                let ghost before = points@;
                points.push(g);
                assert forall|j: int| 0 <= j < points@.len() implies point_from(#[trigger] points@[j], usable_gold(gold@.take(k + 1))[j]) by {
                    if j < before.len() {
                        assert(points@[j] == before[j]);
                    }
                }
            },
            None => {},
        }
        k = k + 1;
    }
    assert(gold@.take(k as int) =~= gold@);
    LedgerData { entries, gold: points, observations: Vec::new() }
}

} // verus!

verus! {

/// Each of the three ratings a sniper buy can carry, SAFE, WATCH and AVOID,
/// lets the evidence through alike: two rows that differ only in which of
/// them they carry either both keep their evidence or both lose it.
pub proof fn law_every_rating_keeps_evidence(a: LedgerRow, b: LedgerRow)
    requires
        string_of(a.decision_status) == Some("SAFE"@) || string_of(a.decision_status) == Some("WATCH"@)
            || string_of(a.decision_status) == Some("AVOID"@),
        string_of(b.decision_status) == Some("SAFE"@) || string_of(b.decision_status) == Some("WATCH"@)
            || string_of(b.decision_status) == Some("AVOID"@),
        a.decision_version == b.decision_version,
        a.decision_reasons == b.decision_reasons,
        a.stress_unit == b.stress_unit,
        a.expected_profit == b.expected_profit,
        a.recommended_quantity == b.recommended_quantity,
        a.source_at == b.source_at,
    ensures
        evidence_ok(a) == evidence_ok(b),
{
}

/// A row whose evidence fields are all present and in bounds and whose
/// rating is SAFE, WATCH or AVOID keeps its evidence; any other rating drops
/// it, so the accepted ratings are exactly those three.
pub proof fn law_evidence_ratings(row: LedgerRow)
    ensures
        (exact_int_of(row.decision_version) matches Some(v) && 1 <= v <= 32767)
            && (string_of(row.decision_status) == Some("SAFE"@) || string_of(row.decision_status) == Some("WATCH"@)
                || string_of(row.decision_status) == Some("AVOID"@))
            && (strings_of(row.decision_reasons) matches Some(rs) && rs.len() <= 32
                && (forall|i: int| 0 <= i < rs.len() ==> (#[trigger] rs[i]).len() > 0 && utf16_len(rs[i]) <= 64))
            && (exact_int_of(row.stress_unit) matches Some(s) && 0 <= s <= MAX_COPPER)
            && (exact_int_of(row.expected_profit) matches Some(p) && 0 <= p <= MAX_COPPER)
            && (exact_int_of(row.recommended_quantity) matches Some(q) && q > 0)
            && (exact_int_of(row.source_at) matches Some(t) && t > 0)
            ==> evidence_ok(row),
        evidence_ok(row) ==> (string_of(row.decision_status) == Some("SAFE"@)
            || string_of(row.decision_status) == Some("WATCH"@) || string_of(row.decision_status) == Some("AVOID"@)),
{
}

} // verus!
