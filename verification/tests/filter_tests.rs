use fz_stream_common::events::{EventType, EventTypeFilter};

#[test]
fn default_allows_everything() {
    let f = EventTypeFilter::new();
    assert!(f.is_allowed(&EventType::Swap));
    assert!(f.is_allowed(&EventType::Custom(99)));
    assert!(f.should_pass(&EventType::Trade));
    assert!(f.is_empty());
    assert_eq!(f.get_stats(), (0, 0, true));
}

#[test]
fn allow_only_restricts_to_the_list() {
    let f = EventTypeFilter::allow_only(vec![EventType::Swap, EventType::Trade]);
    assert!(f.is_allowed(&EventType::Swap));
    assert!(f.is_allowed(&EventType::Trade));
    assert!(!f.is_allowed(&EventType::Block));
    assert!(!f.is_empty());
}

#[test]
fn block_types_wins_over_allow_all() {
    let f = EventTypeFilter::block_types(vec![EventType::Block]);
    assert!(f.is_allowed(&EventType::Swap));
    assert!(!f.is_allowed(&EventType::Block));
    assert!(!f.is_empty());
}

#[test]
fn blocked_wins_over_allowed() {
    let mut f = EventTypeFilter::allow_only(vec![EventType::Swap]);
    f.add_blocked_type(EventType::Swap);
    assert!(!f.is_allowed(&EventType::Swap));
}

#[test]
fn disabled_blocks_everything() {
    let f = EventTypeFilter::disabled();
    assert!(!f.is_allowed(&EventType::Swap));
    assert!(!f.is_allowed(&EventType::Custom(0)));
}

#[test]
fn add_allowed_type_deduplicates_and_clears_allow_all() {
    let mut f = EventTypeFilter::new();
    f.add_allowed_type(EventType::Swap);
    f.add_allowed_type(EventType::Swap);
    f.add_allowed_type(EventType::Trade);
    assert_eq!(f.allowed_types, vec![EventType::Swap, EventType::Trade]);
    assert!(!f.allow_all);
    assert!(!f.is_allowed(&EventType::Block));
    assert!(f.is_allowed(&EventType::Swap));
}

#[test]
fn remove_allowed_type_drops_every_occurrence() {
    let mut f = EventTypeFilter::allow_only(vec![
        EventType::Swap,
        EventType::Trade,
        EventType::Swap,
    ]);
    f.remove_allowed_type(&EventType::Swap);
    assert_eq!(f.allowed_types, vec![EventType::Trade]);
}

#[test]
fn add_and_remove_blocked_type() {
    let mut f = EventTypeFilter::new();
    f.add_blocked_type(EventType::Block);
    f.add_blocked_type(EventType::Block);
    assert_eq!(f.blocked_types, vec![EventType::Block]);
    assert!(f.allow_all);
    f.remove_blocked_type(&EventType::Block);
    assert!(f.blocked_types.is_empty());
    assert!(f.is_allowed(&EventType::Block));
}

#[test]
fn clear_restores_the_default() {
    let mut f = EventTypeFilter::allow_only(vec![EventType::Swap]);
    f.add_blocked_type(EventType::Block);
    f.clear();
    assert!(f.allow_all);
    assert!(f.allowed_types.is_empty());
    assert!(f.blocked_types.is_empty());
}

#[test]
fn get_allowed_types_is_empty_under_allow_all() {
    let f = EventTypeFilter::block_types(vec![EventType::Block]);
    assert!(f.get_allowed_types().is_empty());
    let g = EventTypeFilter::allow_only(vec![EventType::Swap]);
    assert_eq!(g.get_allowed_types(), vec![EventType::Swap]);
    assert_eq!(g.get_blocked_types(), &Vec::new());
}

#[test]
fn merge_unites_lists() {
    let mut a = EventTypeFilter::allow_only(vec![EventType::Swap]);
    let b = EventTypeFilter::allow_only(vec![EventType::Trade]);
    a.merge(&b);
    assert!(!a.allow_all);
    assert!(a.allowed_types.contains(&EventType::Swap));
    assert!(a.allowed_types.contains(&EventType::Trade));
    assert_eq!(a.allowed_types, vec![EventType::Swap, EventType::Trade]);

    let mut c = EventTypeFilter::block_types(vec![EventType::Block]);
    let d = EventTypeFilter::block_types(vec![EventType::Account]);
    c.merge(&d);
    assert!(c.allow_all);
    assert!(c.blocked_types.contains(&EventType::Block));
    assert!(c.blocked_types.contains(&EventType::Account));
}

#[test]
fn merge_with_restrictive_filter_stops_allowing_all() {
    let mut a = EventTypeFilter::new();
    let b = EventTypeFilter::disabled();
    a.merge(&b);
    assert!(!a.allow_all);
}

#[test]
fn intersect_intersects_explicit_allow_lists() {
    let a = EventTypeFilter::allow_only(vec![
        EventType::Swap,
        EventType::Trade,
        EventType::Block,
    ]);
    let b = EventTypeFilter::allow_only(vec![EventType::Trade, EventType::Block]);
    let r = a.intersect(&b);
    assert!(!r.allow_all);
    assert_eq!(r.allowed_types, vec![EventType::Trade, EventType::Block]);
}

#[test]
fn intersect_keeps_the_explicit_side() {
    let a = EventTypeFilter::allow_only(vec![EventType::Swap]);
    let b = EventTypeFilter::new();
    let r = a.intersect(&b);
    assert!(!r.allow_all);
    assert_eq!(r.allowed_types, vec![EventType::Swap]);
    let r2 = b.intersect(&a);
    assert!(!r2.allow_all);
    assert_eq!(r2.allowed_types, vec![EventType::Swap]);
}

#[test]
fn intersect_unites_block_lists() {
    let a = EventTypeFilter::block_types(vec![EventType::Block]);
    let b = EventTypeFilter::block_types(vec![EventType::Account, EventType::Block]);
    let r = a.intersect(&b);
    assert!(r.allow_all);
    assert!(r.blocked_types.contains(&EventType::Block));
    assert!(r.blocked_types.contains(&EventType::Account));
    assert_eq!(r.blocked_types.len(), 2);
    assert!(!r.is_allowed(&EventType::Block));
    assert!(!r.is_allowed(&EventType::Account));
    assert!(r.is_allowed(&EventType::Swap));
}

#[test]
fn summary_lines() {
    assert_eq!(EventTypeFilter::new().get_summary(), "Allow all events");
    assert_eq!(EventTypeFilter::disabled().get_summary(), "Block all events");
    assert_eq!(
        EventTypeFilter::block_types(vec![EventType::Block, EventType::Account]).get_summary(),
        "Allow all except 2 types"
    );
    assert_eq!(
        EventTypeFilter::allow_only(vec![EventType::Swap]).get_summary(),
        "Allow only 1 types"
    );
    let many: Vec<EventType> = (0..12).map(EventType::Custom).collect();
    assert_eq!(
        EventTypeFilter::allow_only(many).get_summary(),
        "Allow only 12 types"
    );
}

#[test]
fn merge_keeps_order_and_deduplicates() {
    let mut a = EventTypeFilter::allow_only(vec![EventType::Swap, EventType::Block]);
    let b = EventTypeFilter::allow_only(vec![
        EventType::Trade,
        EventType::Swap,
        EventType::Account,
    ]);
    a.merge(&b);
    // this filter's order first, then the other's additions in its order,
    // duplicates skipped
    assert_eq!(
        a.allowed_types,
        vec![
            EventType::Swap,
            EventType::Block,
            EventType::Trade,
            EventType::Account
        ]
    );

    let mut c = EventTypeFilter::block_types(vec![EventType::Block]);
    let d = EventTypeFilter::block_types(vec![EventType::Block, EventType::Account]);
    c.merge(&d);
    assert_eq!(c.blocked_types, vec![EventType::Block, EventType::Account]);
}

#[test]
fn intersect_blocked_union_keeps_order() {
    let a = EventTypeFilter::block_types(vec![EventType::Block, EventType::Swap]);
    let b = EventTypeFilter::block_types(vec![EventType::Swap, EventType::Account]);
    let r = a.intersect(&b);
    assert_eq!(
        r.blocked_types,
        vec![EventType::Block, EventType::Swap, EventType::Account]
    );
}
