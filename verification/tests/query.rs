use xiv_quote::counts::Category;
use xiv_quote::counts::CategoryCounts;
use xiv_quote::query::choose_category;
use xiv_quote::query::filter_string;
use xiv_quote::query::make_query;
use xiv_quote::query::select_category;
use xiv_quote::query::LoreQuery;

#[test]
fn selector_maps_to_categories() {
    assert_eq!(select_category(0), Category::NpcYell);
    assert_eq!(select_category(1), Category::Minion);
    assert_eq!(select_category(2), Category::Mount);
}

#[test]
fn chosen_category_is_never_mount() {
    for _ in 0..50 {
        assert_ne!(choose_category(), Category::Mount);
    }
}

#[test]
fn zero_count_filter_omits_source_id() {
    // cache {npc_yell: 500, minion: 10, mount: 0}, selector 2 -> mount
    let counts = CategoryCounts::new(500, 10, 0);
    let category = select_category(2);
    assert_eq!(category, Category::Mount);
    let q = make_query(category, counts.count_for(category));
    assert_eq!(q.source_id, None);
    assert_eq!(filter_string(&q), "Source=Mount,Context=Mount_Description");
}

#[test]
fn source_id_seven_gives_exact_filter() {
    // cache {npc_yell: 500, minion: 10, mount: 0}, selector 1 -> minion,
    // with an internal draw of 7
    let q = LoreQuery {
        source: String::from("Companion"),
        context: String::from("Companion_Description"),
        source_id: Some(7),
    };
    assert_eq!(
        filter_string(&q),
        "Source=Companion,Context=Companion_Description,SourceID=7"
    );
}

#[test]
fn positive_count_draws_in_range() {
    let counts = CategoryCounts::new(500, 10, 0);
    let category = select_category(1);
    assert_eq!(category, Category::Minion);
    for _ in 0..50 {
        let q = make_query(category, counts.count_for(category));
        let id = q.source_id.expect("a positive count must constrain the source id");
        assert!(1 <= id && id < 10);
        let f = filter_string(&q);
        let expected = format!("Source=Companion,Context=Companion_Description,SourceID={}", id);
        assert_eq!(f, expected);
    }
}

#[test]
fn count_two_can_only_draw_one() {
    // the draw ranges over 1..count, so count 2 leaves a single value
    let q = make_query(Category::NpcYell, 2);
    assert_eq!(q.source_id, Some(1));
    assert_eq!(filter_string(&q), "Source=NPCYell,Context=NpcYell_Text,SourceID=1");
}

#[test]
fn refresh_queries_carry_no_source_id() {
    // a missing cache file forces a refresh before any category is queried
    assert!(xiv_quote::counts::needs_refresh(false, None));
    let npc = make_query(Category::NpcYell, 0);
    let minion = make_query(Category::Minion, 0);
    let mount = make_query(Category::Mount, 0);
    assert_eq!(filter_string(&npc), "Source=NPCYell,Context=NpcYell_Text");
    assert_eq!(filter_string(&minion), "Source=Companion,Context=Companion_Description");
    assert_eq!(filter_string(&mount), "Source=Mount,Context=Mount_Description");
    // the three observed totals become the freshly written cache file
    let counts = CategoryCounts::new(1234, 480, 260);
    let written = xiv_quote::codec::serialize_counts(&counts);
    assert_eq!(written, "{\n  \"npc_yell\": 1234,\n  \"minion\": 480,\n  \"mount\": 260\n}");
    assert_eq!(xiv_quote::codec::parse_counts(&written), Some(counts));
}

#[test]
fn counts_lookup_by_category() {
    let counts = CategoryCounts::new(500, 10, 0);
    assert_eq!(counts.count_for(Category::NpcYell), 500);
    assert_eq!(counts.count_for(Category::Minion), 10);
    assert_eq!(counts.count_for(Category::Mount), 0);
}
