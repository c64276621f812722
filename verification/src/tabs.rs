//! The list of tabs that viewers are shown.

use vstd::prelude::*;

use crate::json::Json;
use crate::json::{JsonView, items_view, lemma_items_view};

verus! {

/// Whether a tab is marked as the active one.
pub open spec fn is_active(tab: JsonView) -> bool {
    tab.get("active"@) == Some(JsonView::Bool(true))
}

/// A tab after the active page went to an address.
pub open spec fn moved(tab: JsonView, url: Seq<char>) -> JsonView {
    if is_active(tab) {
        tab.insert("url"@, JsonView::Text(url))
    } else {
        tab
    }
}

/// Sets the address of every active tab, and leaves the others as they are.
pub fn set_active_url(tabs: &mut Vec<Json>, url: &str)
    ensures
        items_view(final(tabs)@) == items_view(old(tabs)@).map_values(
            |tab: JsonView| moved(tab, url@),
        ),
{
    let ghost before = tabs@;
    let mut i: usize = 0;
    while i < tabs.len()
        invariant
            i <= tabs.len(),
            tabs.len() == before.len(),
            forall|j: int| 0 <= j < i ==> (#[trigger] tabs@[j])@ == moved(before[j]@, url@),
            forall|j: int| i <= j < tabs.len() ==> #[trigger] tabs@[j] == before[j],
        decreases tabs.len() - i,
    {
        let active = match tabs[i].get("active") {
            Some(Json::Bool(active)) => *active,
            _ => false,
        };
        if active {
            tabs[i].insert("url", Json::text(url));
        }
        i += 1;
    }
    proof {
        lemma_items_view(before);
        lemma_items_view(tabs@);
        assert(items_view(tabs@) =~= items_view(before).map_values(
            |tab: JsonView| moved(tab, url@),
        ));
    }
}

/// Moving the active page changes nothing of a tab but its address, and that only on
/// an active one.
pub proof fn law_only_the_address_changes(tab: JsonView, url: Seq<char>, key: Seq<char>)
    ensures
        is_active(tab) ==> moved(tab, url).get("url"@) == Some(JsonView::Text(url)),
        !is_active(tab) || key != "url"@ ==> moved(tab, url).get(key) == tab.get(key),
        is_active(moved(tab, url)) == is_active(tab),
{
    reveal_strlit("active");
    reveal_strlit("url");
    assert("active"@.len() == 6 && "url"@.len() == 3);
}

/// A tab that is marked as active gets the address and keeps its other members; any other
/// tab stays what it was, also one whose mark is no boolean.
pub proof fn law_active_tabs_get_the_address(
    tab: JsonView,
    members: Map<Seq<char>, JsonView>,
    url: Seq<char>,
)
    ensures
        members.contains_key("active"@) && members["active"@] == JsonView::Bool(true) ==> moved(
            JsonView::Object(members),
            url,
        ) == JsonView::Object(members.insert("url"@, JsonView::Text(url))),
        !members.contains_key("active"@) || members["active"@] != JsonView::Bool(true) ==> moved(
            JsonView::Object(members),
            url,
        ) == JsonView::Object(members),
        !(tab is Object) ==> moved(tab, url) == tab,
{
}

} // verus!
