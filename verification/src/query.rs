use vstd::prelude::*;
use vstd::string::StringExecFns;

use crate::counts::Category;
use crate::digits::dec_rep;
use crate::digits::u16_to_string;
use rand::Rng;

verus! {

/// One API request: the category's source name, the text column to filter
/// on, and an optional source-id constraint.
pub struct LoreQuery {
    pub source: String,
    pub context: String,
    pub source_id: Option<u16>,
}

/// The source name the API expects for a category.
pub open spec fn source_chars(c: Category) -> Seq<char> {
    match c {
        Category::NpcYell => "NPCYell"@,
        Category::Minion => "Companion"@,
        Category::Mount => "Mount"@,
    }
}

/// The text column the API is asked to match for a category.
pub open spec fn context_chars(c: Category) -> Seq<char> {
    match c {
        Category::NpcYell => "NpcYell_Text"@,
        Category::Minion => "Companion_Description"@,
        Category::Mount => "Mount_Description"@,
    }
}

pub fn source_name(c: Category) -> (r: &'static str)
    ensures
        r@ == source_chars(c),
{
    match c {
        Category::NpcYell => "NPCYell",
        Category::Minion => "Companion",
        Category::Mount => "Mount",
    }
}

pub fn context_name(c: Category) -> (r: &'static str)
    ensures
        r@ == context_chars(c),
{
    match c {
        Category::NpcYell => "NpcYell_Text",
        Category::Minion => "Companion_Description",
        Category::Mount => "Mount_Description",
    }
}

/// Relies on rand::Rng::gen_range over rand::thread_rng(): it returns a value
/// drawn from low..high, and panics only on an empty range, which the
/// precondition rules out.
#[verifier::external_body]
fn random_in_range(low: u16, high: u16) -> (r: u16)
    requires
        low < high,
    ensures
        low <= r < high,
{
    rand::thread_rng().gen_range(low..high)
}

/// The category a selector value maps to.
pub open spec fn selected_category(s: int) -> Category {
    if s == 0 {
        Category::NpcYell
    } else if s == 1 {
        Category::Minion
    } else {
        Category::Mount
    }
}

pub fn select_category(selector: u16) -> (c: Category)
    requires
        selector <= 2,
    ensures
        c == selected_category(selector as int),
{
    match selector {
        0 => Category::NpcYell,
        1 => Category::Minion,
        _ => Category::Mount,
    }
}

/// Draws the selector for this run's category. The draw ranges over 0..2, so
/// it never yields `Mount`.
pub fn choose_category() -> (c: Category)
    ensures
        c == Category::NpcYell || c == Category::Minion,
{
    let s = random_in_range(0, 2);
    select_category(s)
}

/// Builds the query for one category. With a cached count of zero the query
/// carries no source id; with a positive count it carries a source id drawn
/// from 1..count. A count of exactly one leaves that range empty, so it is
/// excluded.
pub fn make_query(category: Category, count: u16) -> (q: LoreQuery)
    requires
        count != 1,
    ensures
        q.source@ == source_chars(category),
        q.context@ == context_chars(category),
        count == 0 ==> q.source_id is None,
        count > 0 ==> q.source_id is Some && 1 <= q.source_id->0 < count,
{
    let source_id = if count > 0 {
        Some(random_in_range(1, count))
    } else {
        None
    };
    LoreQuery {
        source: String::from_str(source_name(category)),
        context: String::from_str(context_name(category)),
        source_id,
    }
}

/// The filter string for a query: `Source=<s>,Context=<c>`, with
/// `,SourceID=<n>` appended exactly when the query carries a source id.
pub open spec fn filter_chars(q: LoreQuery) -> Seq<char> {
    "Source="@ + q.source@ + ",Context="@ + q.context@ + (match q.source_id {
        Some(n) => ",SourceID="@ + dec_rep(n as nat),
        None => Seq::<char>::empty(),
    })
}

pub fn filter_string(q: &LoreQuery) -> (s: String)
    ensures
        s@ == filter_chars(*q),
{
    let mut s = String::from_str("Source=");
    s.append(q.source.as_str());
    s.append(",Context=");
    s.append(q.context.as_str());
    match &q.source_id {
        Some(n) => {
            s.append(",SourceID=");
            let d = u16_to_string(*n);
            s.append(d.as_str());
        },
        None => {},
    }
    proof {
        assert(s@ =~= filter_chars(*q));
    }
    s
}

} // verus!
