use vstd::prelude::*;
use vstd::string::StringExecFns;

verus! {

/// The three lore categories the tool can quote from.
#[derive(Clone, Copy, PartialEq, Eq, Structural, Debug)]
pub enum Category {
    NpcYell,
    Minion,
    Mount,
}

/// The cached number of lore entries per category. A count of zero means the
/// total is unknown, and a query for that category carries no source id.
#[derive(Clone, Copy, PartialEq, Eq, Structural, Debug)]
pub struct CategoryCounts {
    pub npc_yell: u16,
    pub minion: u16,
    pub mount: u16,
}

/// The cached count that belongs to one category.
pub open spec fn count_of(c: CategoryCounts, category: Category) -> u16 {
    match category {
        Category::NpcYell => c.npc_yell,
        Category::Minion => c.minion,
        Category::Mount => c.mount,
    }
}

impl CategoryCounts {
    pub fn new(npc_yell: u16, minion: u16, mount: u16) -> (c: CategoryCounts)
        ensures
            c.npc_yell == npc_yell,
            c.minion == minion,
            c.mount == mount,
    {
        CategoryCounts { npc_yell, minion, mount }
    }

    /// The cached count for one category.
    pub fn count_for(&self, category: Category) -> (n: u16)
        ensures
            n == count_of(*self, category),
    {
        match category {
            Category::NpcYell => self.npc_yell,
            Category::Minion => self.minion,
            Category::Mount => self.mount,
        }
    }
}

/// Decides whether the cache must be rebuilt: always when the cache file is
/// absent, and also whenever the caller passed exactly the token "refresh".
pub fn needs_refresh(cache_present: bool, arg: Option<&String>) -> (r: bool)
    ensures
        r == (!cache_present || (arg is Some && arg->0@ == "refresh"@)),
{
    if !cache_present {
        true
    } else {
        match arg {
            Some(a) => {
                let token = String::from_str("refresh");
                *a == token
            },
            None => false,
        }
    }
}

} // verus!
