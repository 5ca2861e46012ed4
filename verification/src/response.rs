use vstd::prelude::*;
use vstd::string::StringExecFns;

verus! {

/// One decoded API reply: the total number of entries the server reports for
/// the filter, and the texts it returned.
pub struct LoreResponse {
    pub results_total: u16,
    pub texts: Vec<String>,
}

/// The sentence shown when a reply carries no text at all.
pub open spec fn fallback_chars() -> Seq<char> {
    "Have you heard of the critically acclaimed MMORPG Final Fantasy XIV? With an expanded free trial which you can play through the entirety of A Realm Reborn and the award-winning Heavensward expansion up to level 60 for free with no restrictions on playtime."@
}

pub fn fallback_text() -> (s: String)
    ensures
        s@ == fallback_chars(),
{
    String::from_str(
        "Have you heard of the critically acclaimed MMORPG Final Fantasy XIV? With an expanded free trial which you can play through the entirety of A Realm Reborn and the award-winning Heavensward expansion up to level 60 for free with no restrictions on playtime.",
    )
}

/// The text to display for a reply: the first returned text, or the fallback
/// sentence when the reply holds none.
pub fn display_text(r: &LoreResponse) -> (t: String)
    ensures
        r.texts@.len() == 0 ==> t@ == fallback_chars(),
        r.texts@.len() > 0 ==> t@ == r.texts@[0]@,
{
    if r.texts.len() == 0 {
        fallback_text()
    } else {
        r.texts[0].clone()
    }
}

} // verus!
