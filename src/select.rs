//! The one-time choice of which network interface to follow.

use vstd::prelude::*;

verus! {

/// One interface as the sampling side reports it: its name and its
/// cumulative byte counters.
pub struct InterfaceSample {
    pub name: String,
    pub received: u64,
    pub transmitted: u64,
}

/// `needle` occurs in `hay` as a contiguous run of characters.
pub open spec fn contains_seq(hay: Seq<char>, needle: Seq<char>) -> bool {
    exists|i: int|
        0 <= i && i + needle.len() <= hay.len() && #[trigger] hay.subrange(i, i + needle.len())
            == needle
}

/// The keywords that mark likely primary interfaces.
pub open spec fn keywords() -> Seq<Seq<char>> {
    seq!["wlan"@, "eth"@, "en"@, "wl"@]
}

/// `name` contains one of the keywords.
pub open spec fn has_keyword(name: Seq<char>) -> bool {
    exists|k: int| 0 <= k < keywords().len() && contains_seq(name, #[trigger] keywords()[k])
}

/// The first index at or after `i` whose name contains a keyword.
pub open spec fn first_with_keyword(names: Seq<Seq<char>>, i: int) -> Option<int>
    decreases names.len() - i,
{
    if i < 0 || i >= names.len() {
        None
    } else if has_keyword(names[i]) {
        Some(i)
    } else {
        first_with_keyword(names, i + 1)
    }
}

/// The index chosen among `names` (already lower-cased): the first name
/// that contains any keyword; else the first name; `None` when there are
/// no names.
pub open spec fn selected(names: Seq<Seq<char>>) -> Option<int> {
    match first_with_keyword(names, 0) {
        Some(i) => Some(i),
        None => if names.len() > 0 {
            Some(0)
        } else {
            None
        },
    }
}

/// What `str::to_lowercase` makes of a string.
pub uninterp spec fn lower_of(s: Seq<char>) -> Seq<char>;

/// The lower-cased names of the interfaces, in enumeration order.
pub open spec fn lowered_names(ifaces: Seq<InterfaceSample>) -> Seq<Seq<char>> {
    ifaces.map_values(|s: InterfaceSample| lower_of(s.name@))
}

/// Relies on `str::to_lowercase`: the result depends on the characters alone.
#[verifier::external_body]
fn lowercase(s: &str) -> (r: String)
    ensures
        r@ == lower_of(s@),
{
    s.to_lowercase()
}

/// Relies on `str::contains` with a `&str` pattern: true exactly when the
/// pattern is a contiguous part of the string.
#[verifier::external_body]
fn contains_str(hay: &str, needle: &str) -> (r: bool)
    ensures
        r == contains_seq(hay@, needle@),
{
    hay.contains(needle)
}

fn keyword(k: usize) -> (r: &'static str)
    requires
        k < keywords().len(),
    ensures
        r@ == keywords()[k as int],
{
    proof {
        reveal_strlit("wlan");
        reveal_strlit("eth");
        reveal_strlit("en");
        reveal_strlit("wl");
    }
    if k == 0 {
        "wlan"
    } else if k == 1 {
        "eth"
    } else if k == 2 {
        "en"
    } else {
        "wl"
    }
}

/// Picks among already lower-cased names: the first name, in the order
/// given, that contains any of the keywords; failing all, the first name;
/// `None` when there are no names.
pub fn select_lowered(names: &Vec<String>) -> (r: Option<usize>)
    ensures
        r is Some <==> selected(names@.map_values(|s: String| s@)) is Some,
        r is Some ==> r->0 as int == selected(names@.map_values(|s: String| s@))->0,
        r is Some ==> r->0 < names@.len(),
{
    let ghost views = names@.map_values(|s: String| s@);
    let mut i: usize = 0;
    while i < names.len()
        invariant
            i <= names@.len(),
            views == names@.map_values(|s: String| s@),
            first_with_keyword(views, 0) == first_with_keyword(views, i as int),
        decreases names@.len() - i,
    {
        let mut k: usize = 0;
        while k < 4
            invariant
                i < names@.len(),
                k <= 4,
                views == names@.map_values(|s: String| s@),
                first_with_keyword(views, 0) == first_with_keyword(views, i as int),
                forall|j: int| 0 <= j < k ==> !contains_seq(views[i as int], #[trigger] keywords()[j]),
            decreases 4 - k,
        {
            let kw = keyword(k);
            if contains_str(names[i].as_str(), kw) {
                assert(has_keyword(views[i as int]));
                return Some(i);
            }
            k += 1;
        }
        assert(!has_keyword(views[i as int]));
        i += 1;
    }
    if names.len() > 0 {
        Some(0)
    } else {
        None
    }
}

/// Picks the interface to follow: the first, in enumeration order, whose
/// lower-cased name contains one of `wlan`, `eth`, `en`, `wl`; failing all,
/// the first interface; `None` when there is none.
pub fn select_interface(ifaces: &Vec<InterfaceSample>) -> (r: Option<usize>)
    ensures
        r is Some <==> selected(lowered_names(ifaces@)) is Some,
        r is Some ==> r->0 as int == selected(lowered_names(ifaces@))->0,
        r is Some ==> r->0 < ifaces@.len(),
{
    let mut lowered: Vec<String> = Vec::with_capacity(ifaces.len());
    let mut i: usize = 0;
    while i < ifaces.len()
        invariant
            i <= ifaces@.len(),
            lowered@.len() == i,
            forall|j: int| 0 <= j < i ==> #[trigger] lowered@[j]@ == lower_of(ifaces@[j].name@),
        decreases ifaces@.len() - i,
    {
        lowered.push(lowercase(ifaces[i].name.as_str()));
        i += 1;
    }
    proof {
        assert(lowered@.map_values(|s: String| s@) =~= lowered_names(ifaces@));
    }
    select_lowered(&lowered)
}

} // verus!
