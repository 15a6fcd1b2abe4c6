//! The decisions behind the Settings window's commands: pairing codes, realm
//! resolution answers, and whether the companion is paired. The window, the
//! requests and the config file are the caller's.
use vstd::prelude::*;
use crate::config::Config;
use crate::text::{chars_of, push_char, push_u64, digits, is_blank, trim_bounds, trim_seq};

verus! {

/// A realm display name resolved to the slug the sync loop needs.
#[derive(Debug, Clone, PartialEq, Eq)]
pub struct ResolvedRealm {
    pub slug: String,
    pub name_en: String,
}

/// The characters of `s` with whitespace trimmed from both ends, as a string.
pub fn trimmed(s: &str) -> (r: String)
    ensures
        r@ == trim_seq(s@),
{
    let v = chars_of(s);
    let (a, b) = trim_bounds(&v);
    let mut out = String::new();
    let mut i: usize = a;
    while i < b
        invariant
            a <= i <= b,
            b <= v@.len(),
            out@ == v@.subrange(a as int, i as int),
        decreases b - i,
    {
        push_char(&mut out, v[i]);
        assert(v@.subrange(a as int, i + 1) =~= v@.subrange(a as int, i as int).push(v@[i as int]));
        i = i + 1;
    }
    out
}

/// The pairing code as it will be sent: trimmed, and refused when nothing is left.
pub fn pairing_code(code: &str) -> (r: Result<String, String>)
    ensures
        trim_seq(code@).len() > 0 ==> (r matches Ok(c) && c@ == trim_seq(code@)),
        trim_seq(code@).len() == 0 ==> (r matches Err(m) && m@ == "enter the code from goldcap.gg/account"@),
{
    if is_blank(code) {
        return Err(String::from_str("enter the code from goldcap.gg/account"));
    }
    Ok(trimmed(code))
}

/// The refusal a realm-resolution answer with HTTP `status` comes to, or
/// `None` for a 200, whose body then names the realm.
pub open spec fn resolve_refusal_text(status: u16, region: Seq<char>, name: Seq<char>) -> Option<Seq<char>> {
    if status == 200 {
        None
    } else if status == 404 {
        Some("realm \""@ + name + "\" not found on "@ + region)
    } else {
        Some("resolve failed: HTTP "@ + digits(status as nat))
    }
}

pub fn resolve_refusal(status: u16, region: &str, name: &str) -> (r: Option<String>)
    ensures
        match resolve_refusal_text(status, region@, name@) {
            Some(m) => r matches Some(s) && s@ == m,
            None => r is None,
        },
{
    if status == 200 {
        None
    } else if status == 404 {
        let mut out = String::from_str("realm \"");
        out.append(name);
        out.append("\" not found on ");
        out.append(region);
        Some(out)
    } else {
        let mut out = String::from_str("resolve failed: HTTP ");
        push_u64(&mut out, status as u64);
        Some(out)
    }
}

/// Whether the companion holds an upload token; the token itself never
/// leaves the config.
pub fn is_paired(config: &Config) -> (r: bool)
    ensures
        r == (trim_seq(config.companion_token@).len() > 0),
{
    !is_blank(config.companion_token.as_str())
}

/// The config with a freshly claimed upload token.
pub fn paired(config: Config, token: String) -> (r: Config)
    ensures
        r == (Config { companion_token: token, ..config }),
{
    Config { companion_token: token, ..config }
}

/// The config with its upload token dropped: the sync loop stops uploading
/// on its next tick.
pub fn unpaired(config: Config) -> (r: Config)
    ensures
        r.companion_token@.len() == 0,
        r.region == config.region,
        r.realm_slug == config.realm_slug,
        r.wow_retail_path == config.wow_retail_path,
        r.interval_minutes == config.interval_minutes,
        r.launch_at_startup == config.launch_at_startup,
{
    Config { companion_token: String::new(), ..config }
}

/// What a claim answer comes to: a refused code, an answer without a token,
/// or the token.
pub fn claim_result(accepted: bool, token: Option<String>) -> (r: Result<String, String>)
    ensures
        !accepted ==> (r matches Err(m) && m@ == "that code is not valid \u{2014} get a fresh one on goldcap.gg/account"@),
        accepted && token is None ==> (r matches Err(m) && m@ == "the server did not return a token"@),
        accepted && token is Some ==> r == Ok::<String, String>(token->0),
{
    if !accepted {
        return Err(String::from_str("that code is not valid \u{2014} get a fresh one on goldcap.gg/account"));
    }
    match token {
        Some(t) => Ok(t),
        None => Err(String::from_str("the server did not return a token")),
    }
}

} // verus!
