use decoyssh::display::join_displayed;

#[test]
fn test_join_empty_list() {
    let parts: Vec<String> = Vec::new();
    assert_eq!(join_displayed(&parts), "");
}

#[test]
fn test_join_single_item_has_no_separator() {
    let parts = vec![String::from("0.0.0.0:22")];
    assert_eq!(join_displayed(&parts), "0.0.0.0:22");
}

#[test]
fn test_join_several_items() {
    let parts = vec![
        String::from("127.0.0.1:22"),
        String::from("127.0.0.2:22"),
        String::from("[::1]:22"),
    ];
    assert_eq!(join_displayed(&parts), "127.0.0.1:22, 127.0.0.2:22, [::1]:22");
}
