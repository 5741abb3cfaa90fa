use bluth::url::UrlPattern;

#[test]
fn test_single_param_pattern() {
    let url = UrlPattern::new("/users".to_string(), vec!["user_id".to_string()]);
    assert_eq!(url.pattern(), "/users/{user_id}");
}

#[test]
fn test_single_param_path() {
    let url = UrlPattern::new("/users".to_string(), vec!["user_id".to_string()]);
    let path = url.path(&vec![12345u64.to_string()]);
    assert_eq!(path, "/users/12345");
}

#[test]
fn test_multiple_params_pattern() {
    let url = UrlPattern::new(
        "/items/detail".to_string(),
        vec!["item_id".to_string(), "active".to_string()],
    );
    assert_eq!(url.pattern(), "/items/detail/{item_id}/{active}");
}

#[test]
fn test_multiple_params_path() {
    let url = UrlPattern::new(
        "/items/detail".to_string(),
        vec!["item_id".to_string(), "active".to_string()],
    );
    let path = url.path(&vec![5333u64.to_string(), true.to_string()]);
    assert_eq!(path, "/items/detail/5333/true");
}

#[test]
fn test_three_params() {
    let url = UrlPattern::new(
        "/items".to_string(),
        vec![
            "item_id".to_string(),
            "category_id".to_string(),
            "active".to_string(),
        ],
    );
    let path = url.path(&vec![123u32.to_string(), 456u32.to_string(), false.to_string()]);
    assert_eq!(path, "/items/123/456/false");
    assert_eq!(url.pattern(), "/items/{item_id}/{category_id}/{active}");
}

#[test]
fn test_field_access() {
    let url = UrlPattern::new(
        "/items/detail".to_string(),
        vec!["item_id".to_string(), "active".to_string()],
    );
    let values = vec![999u64.to_string(), false.to_string()];
    assert_eq!(values[0], "999");
    assert_eq!(values[1], "false");
    assert_eq!(url.path(&values), "/items/detail/999/false");
}
