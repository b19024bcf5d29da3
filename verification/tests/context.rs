use rpr::context::{Context, SpeakerRegistry};
use rpr::table::Table;

#[test]
fn a_registry_gives_the_name_entered_last() {
    let mut speakers = SpeakerRegistry::new();
    assert_eq!(speakers.get("RP"), None);
    speakers.insert("RP".to_string(), "Ray".to_string());
    speakers.insert("JM".to_string(), "John".to_string());
    speakers.insert("RP".to_string(), "Ray Peat".to_string());
    assert_eq!(speakers.get("RP"), Some(&"Ray Peat".to_string()));
    assert_eq!(speakers.get("JM"), Some(&"John".to_string()));
    assert_eq!(speakers.get("rp"), None);
    assert_eq!(speakers.get(""), None);
}

#[test]
fn a_table_keeps_what_is_entered_under_each_key() {
    let mut table = Table::new();
    table.insert("".to_string(), "empty".to_string());
    table.insert("a".to_string(), "1".to_string());
    assert_eq!(table.get(""), Some(&"empty".to_string()));
    assert_eq!(table.get("a"), Some(&"1".to_string()));
    assert_eq!(table.get("b"), None);
}

#[test]
fn a_new_context_has_numbered_nothing() {
    let mut context = Context::new("doc.md".to_string(), None, SpeakerRegistry::new());
    assert_eq!((context.sidenotes, context.mentions), (0, 0));
    assert_eq!(context.speaker, None);
    assert_eq!(context.max_indent, usize::MAX);
    assert_eq!(context.next_sidenote(), 1);
    assert_eq!(context.next_sidenote(), 2);
    assert_eq!(context.next_mention(), 1);
    assert_eq!((context.sidenotes, context.mentions), (2, 1));
}
