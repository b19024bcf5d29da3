use rpr::catalog::{place, slug_of, Asset, Catalog, Place};
use rpr::markdown::Element;

fn asset(slug: &str, path: &str) -> Asset {
    Asset {
        slug: slug.to_string(),
        path: path.to_string(),
        elements: Element::Root { children: vec![] },
    }
}

fn slugs(catalog: &Catalog) -> Vec<String> {
    catalog.assets().iter().map(|asset| asset.slug.clone()).collect()
}

#[test]
fn strings_are_placed_as_in_a_dictionary() {
    assert_eq!(place("apple", "banana"), Place::Before);
    assert_eq!(place("banana", "apple"), Place::After);
    assert_eq!(place("apple", "apple"), Place::Same);
    assert_eq!(place("app", "apple"), Place::Before);
    assert_eq!(place("apple", "app"), Place::After);
    assert_eq!(place("", "a"), Place::Before);
    assert_eq!(place("", ""), Place::Same);
    assert_eq!(place("Zebra", "apple"), Place::Before);
    assert_eq!(place("é", "z"), Place::After);
}

#[test]
fn the_place_of_strings_is_the_order_of_the_standard_library() {
    let words = ["", "a", "A", "ab", "b", "é", "z", "a-b", "a b", "10", "9"];
    for a in words {
        for b in words {
            let expected = match a.cmp(b) {
                std::cmp::Ordering::Less => Place::Before,
                std::cmp::Ordering::Equal => Place::Same,
                std::cmp::Ordering::Greater => Place::After,
            };
            assert_eq!(place(a, b), expected, "{:?} {:?}", a, b);
        }
    }
}

#[test]
fn assets_come_in_the_order_of_their_slugs() {
    let mut catalog = Catalog::new();
    assert_eq!(catalog.len(), 0);
    for slug in ["milk", "aspirin", "thyroid", "coffee", "sugar"] {
        catalog.insert(asset(slug, "first"));
    }
    assert_eq!(catalog.len(), 5);
    assert_eq!(slugs(&catalog), vec!["aspirin", "coffee", "milk", "sugar", "thyroid"]);
}

#[test]
fn an_asset_replaces_the_one_with_its_slug() {
    let mut catalog = Catalog::new();
    catalog.insert(asset("milk", "first"));
    catalog.insert(asset("coffee", "first"));
    catalog.insert(asset("milk", "second"));
    assert_eq!(catalog.len(), 2);
    assert_eq!(slugs(&catalog), vec!["coffee", "milk"]);
    assert_eq!(catalog.get("milk").map(|asset| asset.path.as_str()), Some("second"));
    assert_eq!(catalog.get("coffee").map(|asset| asset.path.as_str()), Some("first"));
    assert!(catalog.get("sugar").is_none());
}

#[test]
fn the_slug_is_the_file_name_without_its_date() {
    assert_eq!(slug_of("2019-03-28-milk-in-context"), Some("milk-in-context".to_string()));
    assert_eq!(slug_of("0000-00-00-é"), Some("é".to_string()));
    assert_eq!(slug_of("2019-03-28-"), None);
    assert_eq!(slug_of("milk"), None);
    assert_eq!(slug_of(""), None);
}
