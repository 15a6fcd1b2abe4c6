//! Companion configuration: region and realm to sync, the WoW `_retail_`
//! install path, sync cadence, launch-at-startup and the pairing token.
//! Reading and writing the JSON file is the caller's job; the rules about
//! defaults, first runs and install folders live here.
use vstd::prelude::*;
use crate::text::{to_ascii_lowercase, ascii_lower, is_blank, trim_seq, str_eq};

verus! {

/// The login region prices are fetched for.
#[derive(Debug, Clone, Copy, PartialEq, Eq, Structural)]
pub enum Region {
    Eu,
    Us,
}

/// The lowercase name a region goes by on the wire and on disk.
pub open spec fn region_text(r: Region) -> Seq<char> {
    match r {
        Region::Eu => "eu"@,
        Region::Us => "us"@,
    }
}

/// What `Region::from_str` makes of a string: `eu` or `us` in any ASCII case,
/// and otherwise the refusal naming the lowercased input.
pub open spec fn parse_region_spec(s: Seq<char>) -> Result<Region, Seq<char>> {
    if ascii_lower(s) == "eu"@ {
        Ok(Region::Eu)
    } else if ascii_lower(s) == "us"@ {
        Ok(Region::Us)
    } else {
        Err("unknown region: "@ + ascii_lower(s))
    }
}

impl Region {
    /// `"eu"` or `"us"`.
    pub fn to_string(&self) -> (r: String)
        ensures
            r@ == region_text(*self),
    {
        match self {
            Region::Eu => String::from_str("eu"),
            Region::Us => String::from_str("us"),
        }
    }

    /// Reads a region name in any ASCII case.
    pub fn parse(s: &str) -> (r: Result<Region, String>)
        ensures
            match parse_region_spec(s@) {
                Ok(region) => r == Ok::<Region, String>(region),
                Err(e) => r matches Err(m) && m@ == e,
            },
    {
        let lower = to_ascii_lowercase(s);
        if str_eq(lower.as_str(), "eu") {
            Ok(Region::Eu)
        } else if str_eq(lower.as_str(), "us") {
            Ok(Region::Us)
        } else {
            let mut msg = String::from_str("unknown region: ");
            msg.append(lower.as_str());
            Err(msg)
        }
    }
}

impl Default for Region {
    fn default() -> (r: Region)
        ensures
            r == Region::Eu,
    {
        Region::Eu
    }
}

impl std::str::FromStr for Region {
    type Err = String;

    fn from_str(s: &str) -> (r: Result<Region, String>)
        ensures
            match parse_region_spec(s@) {
                Ok(region) => r == Ok::<Region, String>(region),
                Err(e) => r matches Err(m) && m@ == e,
            },
    {
        Region::parse(s)
    }
}

/// Minutes between syncs when the file does not say.
pub const DEFAULT_INTERVAL_MINUTES: u32 = 30;

/// The companion's settings.
#[derive(Debug, Clone, PartialEq)]
pub struct Config {
    pub region: Region,
    pub realm_slug: String,
    pub wow_retail_path: String,
    pub interval_minutes: u32,
    pub launch_at_startup: bool,
    /// Long-lived upload token from pairing; empty until the player pairs, and
    /// an empty token disables upload rather than failing a tick.
    pub companion_token: String,
}

/// A config holding the defaults: EU, no realm, no install path, a 30-minute
/// interval, no launch at startup, unpaired.
pub open spec fn is_default_config(c: Config) -> bool {
    &&& c.region == Region::Eu
    &&& c.realm_slug@.len() == 0
    &&& c.wow_retail_path@.len() == 0
    &&& c.interval_minutes == DEFAULT_INTERVAL_MINUTES
    &&& !c.launch_at_startup
    &&& c.companion_token@.len() == 0
}

/// A config the sync loop can act on: a realm and an install path, neither blank.
pub open spec fn is_complete_spec(c: Config) -> bool {
    trim_seq(c.realm_slug@).len() > 0 && trim_seq(c.wow_retail_path@).len() > 0
}

/// The sync interval in seconds, with a stray `0` read as one minute.
pub open spec fn interval_secs(c: Config) -> int {
    if c.interval_minutes == 0 {
        60
    } else {
        c.interval_minutes * 60
    }
}

impl Default for Config {
    fn default() -> (r: Config)
        ensures
            is_default_config(r),
    {
        Config {
            region: Region::Eu,
            realm_slug: String::new(),
            wow_retail_path: String::new(),
            interval_minutes: DEFAULT_INTERVAL_MINUTES,
            launch_at_startup: false,
            companion_token: String::new(),
        }
    }
}

/// What reading the config file came to.
#[derive(Debug, Clone, PartialEq)]
pub enum LoadOutcome {
    /// The file was there and parsed.
    Loaded(Config),
    /// There is no file yet: a first run.
    Missing,
    /// The file could not be read or parsed.
    Failed,
}

impl Config {
    /// Sync interval in seconds, clamped to a one-minute minimum so a stray
    /// `0` in a hand-edited file cannot spin the loop into a sync storm.
    pub fn interval(&self) -> (r: u64)
        ensures
            r == interval_secs(*self),
            r >= 60,
    {
        let minutes: u64 = if self.interval_minutes == 0 { 1 } else { self.interval_minutes as u64 };
        minutes * 60
    }

    /// Whether the sync loop has a realm and an install path to work with.
    pub fn is_complete(&self) -> (r: bool)
        ensures
            r == is_complete_spec(*self),
    {
        !is_blank(self.realm_slug.as_str()) && !is_blank(self.wow_retail_path.as_str())
    }

    /// The first-run rule: a loaded config is used as it is; a missing file
    /// becomes the default config with the detected install path, which must
    /// then be saved so the file exists once the app has run; any other
    /// failure is passed on (`None`). The flag says whether to save.
    pub fn load_or_init(loaded: LoadOutcome, detected_wow_path: String) -> (r: Option<(Config, bool)>)
        ensures
            match loaded {
                LoadOutcome::Loaded(c) => r == Some((c, false)),
                LoadOutcome::Missing => r matches Some((c, save)) && save && c.wow_retail_path == detected_wow_path
                    && c.region == Region::Eu && c.realm_slug@.len() == 0
                    && c.interval_minutes == DEFAULT_INTERVAL_MINUTES && !c.launch_at_startup
                    && c.companion_token@.len() == 0,
                LoadOutcome::Failed => r is None,
            },
    {
        match loaded {
            LoadOutcome::Loaded(c) => Some((c, false)),
            LoadOutcome::Missing => {
                let mut c = Config::default();
                c.wow_retail_path = detected_wow_path;
                Some((c, true))
            },
            LoadOutcome::Failed => None,
        }
    }
}

/// Which folder a candidate install path resolves to.
#[derive(Debug, Clone, Copy, PartialEq, Eq, Structural)]
pub enum RetailDir {
    /// The candidate is the `_retail_` folder itself.
    Itself,
    /// The candidate is the base install; its `_retail_` child is the one.
    Child,
    /// Not a retail install.
    NotFound,
}

/// Whether a folder name is `_retail_` in any ASCII case.
pub open spec fn is_retail_name(name: Seq<char>) -> bool {
    ascii_lower(name) == "_retail_"@
}

/// Accepts a candidate that is either the WoW base install dir or the
/// `_retail_` dir itself: a folder that exists and is named `_retail_` (any
/// case) is itself the answer, otherwise its `_retail_` child when that exists.
pub fn normalize_retail_dir(candidate_is_dir: bool, candidate_name: Option<&str>, retail_child_is_dir: bool) -> (r: RetailDir)
    ensures
        r == if !candidate_is_dir {
            RetailDir::NotFound
        } else if candidate_name matches Some(n) && is_retail_name(n@) {
            RetailDir::Itself
        } else if retail_child_is_dir {
            RetailDir::Child
        } else {
            RetailDir::NotFound
        },
{
    if !candidate_is_dir {
        return RetailDir::NotFound;
    }
    match candidate_name {
        Some(name) => {
            let lower = to_ascii_lowercase(name);
            if str_eq(lower.as_str(), "_retail_") {
                return RetailDir::Itself;
            }
        },
        None => {},
    }
    if retail_child_is_dir {
        RetailDir::Child
    } else {
        RetailDir::NotFound
    }
}

/// The install auto-detect on a platform with no known install location: nothing.
pub fn detect_wow_retail_path() -> (r: String)
    ensures
        r@.len() == 0,
{
    String::new()
}

} // verus!

verus! {

/// A region written out reads back as the same region.
pub proof fn law_region_round_trip(r: Region)
    ensures
        parse_region_spec(region_text(r)) == Ok::<Region, Seq<char>>(r),
{
    reveal_strlit("eu");
    reveal_strlit("us");
    assert(ascii_lower("eu"@) =~= "eu"@);
    assert(ascii_lower("us"@) =~= "us"@);
    assert("us"@[0] != "eu"@[0]);
    assert("us"@ != "eu"@);
}

/// However the interval is set, the loop never syncs more often than once a minute.
pub proof fn law_interval_at_least_a_minute(c: Config)
    ensures
        interval_secs(c) >= 60,
{
}

} // verus!

verus! {

/// The registry values the Windows auto-detect reads, in the order it reads
/// them: (key, value name). Blizzard's own `InstallPath` usually names the
/// `_retail_` folder, the uninstaller's `InstallLocation` the base install.
pub fn registry_sources() -> (r: Vec<(&'static str, &'static str)>)
    ensures
        r@.len() == 4,
        r@[0].0@ == "SOFTWARE\\WOW6432Node\\Blizzard Entertainment\\World of Warcraft"@ && r@[0].1@ == "InstallPath"@,
        r@[1].0@ == "SOFTWARE\\Blizzard Entertainment\\World of Warcraft"@ && r@[1].1@ == "InstallPath"@,
        r@[2].0@ == "SOFTWARE\\WOW6432Node\\Microsoft\\Windows\\CurrentVersion\\Uninstall\\World of Warcraft"@
            && r@[2].1@ == "InstallLocation"@,
        r@[3].0@ == "SOFTWARE\\Microsoft\\Windows\\CurrentVersion\\Uninstall\\World of Warcraft"@
            && r@[3].1@ == "InstallLocation"@,
{
    let mut v: Vec<(&'static str, &'static str)> = Vec::new();
    v.push(("SOFTWARE\\WOW6432Node\\Blizzard Entertainment\\World of Warcraft", "InstallPath"));
    v.push(("SOFTWARE\\Blizzard Entertainment\\World of Warcraft", "InstallPath"));
    v.push(("SOFTWARE\\WOW6432Node\\Microsoft\\Windows\\CurrentVersion\\Uninstall\\World of Warcraft", "InstallLocation"));
    v.push(("SOFTWARE\\Microsoft\\Windows\\CurrentVersion\\Uninstall\\World of Warcraft", "InstallLocation"));
    v
}

/// The install folders commonly used under a drive, in the order they are tried.
pub open spec fn drive_suffix(k: int) -> Seq<char> {
    if k == 0 {
        "Program Files (x86)\\World of Warcraft"@
    } else if k == 1 {
        "Program Files\\World of Warcraft"@
    } else if k == 2 {
        "World of Warcraft"@
    } else if k == 3 {
        "Games\\World of Warcraft"@
    } else if k == 4 {
        "Blizzard\\World of Warcraft"@
    } else {
        "Battle.net\\World of Warcraft"@
    }
}

/// The `i`-th fallback location: drive letters C to Z in turn, each with the
/// six usual folders.
pub open spec fn drive_candidate(i: int) -> Seq<char> {
    seq![(67 + i / 6) as char, ':', '\\'] + drive_suffix(i % 6)
}

fn suffix_str(k: usize) -> (r: &'static str)
    requires
        k < 6,
    ensures
        r@ == drive_suffix(k as int),
{
    if k == 0 {
        "Program Files (x86)\\World of Warcraft"
    } else if k == 1 {
        "Program Files\\World of Warcraft"
    } else if k == 2 {
        "World of Warcraft"
    } else if k == 3 {
        "Games\\World of Warcraft"
    } else if k == 4 {
        "Blizzard\\World of Warcraft"
    } else {
        "Battle.net\\World of Warcraft"
    }
}

/// Every place the Windows auto-detect looks, in order: the install paths the
/// registry named first (exact answers for non-default locations), then the
/// common folders on every drive from C to Z. The first that resolves to a
/// retail install wins.
pub fn install_candidates(registry: Vec<String>) -> (r: Vec<String>)
    ensures
        r@.len() == registry@.len() + 144,
        forall|i: int| 0 <= i < registry@.len() ==> (#[trigger] r@[i])@ == registry@[i]@,
        forall|j: int| 0 <= j < 144 ==> (#[trigger] r@[registry@.len() + j])@ == drive_candidate(j),
{
    let mut out = registry;
    let n = out.len();
    let mut letter: u32 = 0;
    while letter < 24
        invariant
            letter <= 24,
            n == registry@.len(),
            out@.len() == n + 6 * letter,
            forall|i: int| 0 <= i < n ==> (#[trigger] out@[i])@ == registry@[i]@,
            forall|j: int| 0 <= j < 6 * letter ==> (#[trigger] out@[n + j])@ == drive_candidate(j),
        decreases 24 - letter,
    {
        let mut k: usize = 0;
        while k < 6
            invariant
                k <= 6,
                letter < 24,
                n == registry@.len(),
                out@.len() == n + 6 * letter + k,
                forall|i: int| 0 <= i < n ==> (#[trigger] out@[i])@ == registry@[i]@,
                forall|j: int| 0 <= j < 6 * letter + k ==> (#[trigger] out@[n + j])@ == drive_candidate(j),
            decreases 6 - k,
        {
            let mut s = String::new();
            let c = ((67 + letter) as u8) as char;
            crate::text::push_char(&mut s, c);
            s.append(":\\");
            s.append(suffix_str(k));
            let ghost j = 6 * letter + k;
            proof {
                assert(j / 6 == letter as int && j % 6 == k as int) by (nonlinear_arith)
                    requires j == 6 * letter + k, k < 6;
                reveal_strlit(":\\");
                assert(s@ =~= drive_candidate(j));
            }
            let ghost before = out@;
            out.push(s);
            assert(out@[n + j] == s);
            assert forall|t: int| 0 <= t < 6 * letter + k + 1 implies (#[trigger] out@[n + t])@ == drive_candidate(t) by {
                if t < j {
                    assert(out@[n + t] == before[n + t]);
                }
            }
            k = k + 1;
        }
        letter = letter + 1;
    }
    out
}

} // verus!
