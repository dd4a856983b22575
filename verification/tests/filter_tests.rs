use picklist::filter::filter;

fn catalog() -> Vec<String> {
    vec!["php".to_string(), "python".to_string(), "rust".to_string()]
}

fn chars(s: &str) -> Vec<char> {
    s.chars().collect()
}

#[test]
fn empty_query_keeps_catalog() {
    let c = catalog();
    assert_eq!(filter(&c, &chars("")), c);
}

#[test]
fn prefix_query_keeps_matching_items_in_order() {
    let c = catalog();
    assert_eq!(
        filter(&c, &chars("p")),
        vec!["php".to_string(), "python".to_string()]
    );
    assert_eq!(filter(&c, &chars("py")), vec!["python".to_string()]);
    assert_eq!(filter(&c, &chars("r")), vec!["rust".to_string()]);
}

#[test]
fn query_is_case_insensitive() {
    let c = catalog();
    assert_eq!(
        filter(&c, &chars("P")),
        vec!["php".to_string(), "python".to_string()]
    );
    assert_eq!(filter(&c, &chars("RU")), vec!["rust".to_string()]);
}

#[test]
fn uppercase_catalog_items_match_lowercase_query() {
    let c = vec!["PHP".to_string(), "Python".to_string(), "rust".to_string()];
    assert_eq!(
        filter(&c, &chars("p")),
        vec!["PHP".to_string(), "Python".to_string()]
    );
}

#[test]
fn unmatched_query_yields_empty_result() {
    let c = catalog();
    assert_eq!(filter(&c, &chars("z")), Vec::<String>::new());
}

#[test]
fn whole_item_matches_but_longer_query_does_not() {
    let c = catalog();
    assert_eq!(filter(&c, &chars("python")), vec!["python".to_string()]);
    assert_eq!(filter(&c, &chars("pythons")), Vec::<String>::new());
}

#[test]
fn longer_query_result_is_subset_of_prefix_query_result() {
    let c = catalog();
    let wide = filter(&c, &chars("p"));
    let narrow = filter(&c, &chars("py"));
    for item in &narrow {
        assert!(wide.contains(item));
    }
}

#[test]
fn result_is_subsequence_of_catalog() {
    let c = catalog();
    let r = filter(&c, &chars("p"));
    let mut pos: usize = 0;
    for item in &r {
        while pos < c.len() && &c[pos] != item {
            pos += 1;
        }
        assert!(pos < c.len(), "filter result out of catalog order");
        pos += 1;
    }
}

#[test]
fn empty_catalog_yields_empty_result() {
    let c: Vec<String> = Vec::new();
    assert_eq!(filter(&c, &chars("")), Vec::<String>::new());
    assert_eq!(filter(&c, &chars("a")), Vec::<String>::new());
}
