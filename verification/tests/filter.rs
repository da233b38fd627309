use pretty_logging::filter::prefix_covers;
use pretty_logging::text::same_text;
use pretty_logging::{Logger, ModuleFilterSet};

fn set_of(prefixes: &[&str]) -> ModuleFilterSet {
    ModuleFilterSet::new(prefixes.iter().map(|p| p.to_string()).collect())
}

#[test]
fn origin_equal_to_prefix_is_enabled() {
    assert!(set_of(&["prefix"]).enabled("prefix"));
}

#[test]
fn descendant_of_prefix_is_enabled() {
    assert!(set_of(&["prefix"]).enabled("prefix::x::y"));
    assert!(set_of(&["prefix"]).enabled("prefix::x"));
}

#[test]
fn origin_that_only_continues_prefix_is_not_enabled() {
    assert!(!set_of(&["prefix"]).enabled("prefixother"));
    assert!(!set_of(&["prefix"]).enabled("prefix_other::x"));
}

#[test]
fn empty_set_enables_every_origin() {
    let set = set_of(&[]);
    assert!(set.enabled("prefix"));
    assert!(set.enabled("anything::at::all"));
    assert!(set.enabled(""));
}

#[test]
fn any_entry_of_the_set_can_match() {
    let set = set_of(&["alpha", "beta", "gamma::delta"]);
    assert_eq!(set.len(), 3);
    assert!(set.enabled("alpha"));
    assert!(set.enabled("beta::inner"));
    assert!(set.enabled("gamma::delta"));
    assert!(set.enabled("gamma::delta::deep"));
    assert!(!set.enabled("gamma"));
    assert!(!set.enabled("gamma::other"));
    assert!(!set.enabled("delta"));
}

#[test]
fn prefixes_keep_their_order() {
    let set = set_of(&["one", "two"]);
    assert_eq!(set.prefix(0), "one");
    assert_eq!(set.prefix(1), "two");
}

#[test]
fn shorter_origin_is_not_enabled() {
    assert!(!set_of(&["prefix"]).enabled("pre"));
    assert!(!set_of(&["prefix"]).enabled(""));
}

#[test]
fn a_single_colon_does_not_separate() {
    assert!(!prefix_covers("app", "app:db"));
    assert!(!prefix_covers("app", "app:"));
    assert!(!prefix_covers("app", "app:x:"));
}

#[test]
fn separator_alone_after_prefix_is_covered() {
    assert!(prefix_covers("app", "app::"));
}

#[test]
fn empty_prefix_covers_empty_origin_and_rooted_paths() {
    assert!(prefix_covers("", ""));
    assert!(prefix_covers("", "::x"));
    assert!(!prefix_covers("", "x"));
}

#[test]
fn coverage_is_by_characters() {
    assert!(prefix_covers("módulo", "módulo::ação"));
    assert!(!prefix_covers("módulo", "modulo::ação"));
    assert!(!prefix_covers("mód", "módulo"));
}

#[test]
fn logger_filters_like_its_set() {
    let logger = Logger::new(vec!["app".to_string()]);
    assert!(logger.enabled("app"));
    assert!(logger.enabled("app::db"));
    assert!(!logger.enabled("other"));
    assert!(!logger.enabled("application"));
    let open = Logger::new(Vec::new());
    assert!(open.enabled("other"));
}

#[test]
fn same_text_compares_whole_strings() {
    assert!(same_text("", ""));
    assert!(same_text("INFO", "INFO"));
    assert!(!same_text("INFO", "INFOS"));
    assert!(!same_text("INFOS", "INFO"));
    assert!(!same_text("INFO", "INFo"));
    assert!(!same_text("", "x"));
    assert!(same_text("añb", "añb"));
}
