use vstd::prelude::*;

use crate::dates::{date_of_version, extract_date};
use crate::strutil::{lex_lt, str_eq, str_lex_lt};

verus! {

/// One entry of the remotely published version manifest.
pub struct VersionItem {
    pub name: String,
    pub version: String,
}

/// The version strings of the three locally installed components.
pub struct LocalVersions {
    pub moon: String,
    pub moonrun: String,
    pub moonc: String,
}

pub open spec fn items_view(items: Seq<VersionItem>) -> Seq<(Seq<char>, Seq<char>)> {
    items.map_values(|it: VersionItem| (it.name@, it.version@))
}

/// A manifest entry calls for an upgrade when it names one of the three
/// components and its date token is lexically — hence, by
/// `lemma_lex_order_is_chronological`, chronologically — later than the
/// local one.
pub open spec fn item_triggers_upgrade(
    name: Seq<char>,
    version: Seq<char>,
    moon_d: Seq<char>,
    moonrun_d: Seq<char>,
    moonc_d: Seq<char>,
) -> bool {
    let d = date_of_version(version)->Some_0;
    (name == "moon"@ && lex_lt(moon_d, d)) || (name == "moonrun"@ && lex_lt(moonrun_d, d)) || (
    name == "moonc"@ && lex_lt(moonc_d, d))
}

/// The upgrade decision over plain version strings. `None` means a date token
/// could not be extracted from some required string; callers treat that as
/// "upgrade needed" (fail-open).
pub open spec fn upgrade_decision(
    moon_v: Seq<char>,
    moonrun_v: Seq<char>,
    moonc_v: Seq<char>,
    items: Seq<(Seq<char>, Seq<char>)>,
) -> Option<bool> {
    if date_of_version(moon_v) is None || date_of_version(moonrun_v) is None || date_of_version(
        moonc_v,
    ) is None {
        None
    } else if exists|i: int| 0 <= i < items.len() && date_of_version((#[trigger] items[i]).1) is None {
        None
    } else {
        Some(
            exists|i: int|
                0 <= i < items.len() && item_triggers_upgrade(
                    (#[trigger] items[i]).0,
                    items[i].1,
                    date_of_version(moon_v)->Some_0,
                    date_of_version(moonrun_v)->Some_0,
                    date_of_version(moonc_v)->Some_0,
                ),
        )
    }
}

/// Whether any named remote component is strictly newer than its local
/// counterpart: `Some(true)` when at least one is, `Some(false)` when none
/// is, `None` when a required date token cannot be extracted.
pub fn should_upgrade(
    moon_version: &str,
    moonrun_version: &str,
    moonc_version: &str,
    items: &Vec<VersionItem>,
) -> (r: Option<bool>)
    ensures
        r == upgrade_decision(moon_version@, moonrun_version@, moonc_version@, items_view(items@)),
{
    let moon_date = match extract_date(moon_version) {
        Some(d) => d,
        None => {
            return None;
        },
    };
    let moonrun_date = match extract_date(moonrun_version) {
        Some(d) => d,
        None => {
            return None;
        },
    };
    let moonc_date = match extract_date(moonc_version) {
        Some(d) => d,
        None => {
            return None;
        },
    };
    let ghost iv = items_view(items@);
    let ghost moon_d = date_of_version(moon_version@)->Some_0;
    let ghost moonrun_d = date_of_version(moonrun_version@)->Some_0;
    let ghost moonc_d = date_of_version(moonc_version@)->Some_0;
    let mut needs: bool = false;
    let mut i: usize = 0;
    while i < items.len()
        invariant
            0 <= i <= items@.len(),
            iv == items_view(items@),
            iv.len() == items@.len(),
            forall|j: int| 0 <= j < i ==> date_of_version((#[trigger] iv[j]).1) is Some,
            moon_date@ == moon_d,
            moonrun_date@ == moonrun_d,
            moonc_date@ == moonc_d,
            needs == exists|j: int|
                0 <= j < i && item_triggers_upgrade(
                    (#[trigger] iv[j]).0,
                    iv[j].1,
                    moon_d,
                    moonrun_d,
                    moonc_d,
                ),
        decreases items@.len() - i,
    {
        let item = &items[i];
        let latest_date = match extract_date(item.version.as_str()) {
            Some(d) => d,
            None => {
                proof {
                    assert(iv[i as int].1 == items@[i as int].version@);
                    assert(date_of_version(iv[i as int].1) is None);
                }
                return None;
            },
        };
        let trig = (str_eq(item.name.as_str(), "moon") && str_lex_lt(
            moon_date.as_str(),
            latest_date.as_str(),
        )) || (str_eq(item.name.as_str(), "moonrun") && str_lex_lt(
            moonrun_date.as_str(),
            latest_date.as_str(),
        )) || (str_eq(item.name.as_str(), "moonc") && str_lex_lt(
            moonc_date.as_str(),
            latest_date.as_str(),
        ));
        proof {
            assert(iv[i as int] == (items@[i as int].name@, items@[i as int].version@));
            assert(trig == item_triggers_upgrade(iv[i as int].0, iv[i as int].1, moon_d, moonrun_d, moonc_d));
        }
        if trig {
            needs = true;
        }
        i = i + 1;
    }
    Some(needs)
}

/// The one situation in which the run stops as already up to date: no forced
/// run, both the remote manifest and the local versions in hand, and the
/// comparison finding nothing newer.
pub open spec fn up_to_date_decision(
    force: bool,
    remote_items: Option<Vec<VersionItem>>,
    local: Option<LocalVersions>,
) -> bool {
    &&& !force
    &&& remote_items is Some
    &&& local is Some
    &&& upgrade_decision(
        local->Some_0.moon@,
        local->Some_0.moonrun@,
        local->Some_0.moonc@,
        items_view(remote_items->Some_0@),
    ) == Some(false)
}

/// Whether the run should proceed to download and install. A forced run always
/// proceeds; otherwise the run stops only when the remote manifest and all
/// local versions were obtained and the comparison came out "nothing newer" —
/// any missing or malformed input falls open to proceeding.
pub fn proceed_with_upgrade(
    force: bool,
    remote_items: &Option<Vec<VersionItem>>,
    local: &Option<LocalVersions>,
) -> (r: bool)
    ensures
        !r <==> up_to_date_decision(force, *remote_items, *local),
{
    if force {
        return true;
    }
    match (remote_items, local) {
        (Some(its), Some(l)) => {
            match should_upgrade(l.moon.as_str(), l.moonrun.as_str(), l.moonc.as_str(), its) {
                Some(false) => false,
                _ => true,
            }
        },
        _ => true,
    }
}

} // verus!
