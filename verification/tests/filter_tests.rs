use easydns::filter::{
    handle_one_line, item_from_captures, lay_over, line_regex, read_resources_to_filter,
    read_to_filter, Filter, FilterItem,
};

#[test]
fn test_handle_one_line() {
    let line_regex = line_regex().unwrap();
    let x = String::from("address /kwcscdn.000dn.com/#");

    let result = handle_one_line(&line_regex, &x);

    assert_eq!(result, Some(FilterItem::from(String::from("kwcscdn.000dn.com"))));
}

#[test]
fn lines_without_a_domain_give_nothing() {
    let regex = line_regex().unwrap();
    assert_eq!(handle_one_line(&regex, &"# address /a.com/#".to_string()), None);
    assert_eq!(handle_one_line(&regex, &"server=/a.com/1.1.1.1".to_string()), None);
    assert_eq!(handle_one_line(&regex, &String::new()), None);
    assert_eq!(
        handle_one_line(&regex, &"address /kwcdn.000dn.com/d\n".to_string()),
        Some(FilterItem { domain: "kwcdn.000dn.com".to_string(), group: "d".to_string() })
    );
}

#[test]
fn captures_give_an_item_only_with_both_groups() {
    let both = Some((Some("a.b".to_string()), Some("#".to_string())));
    assert_eq!(item_from_captures("address /a.b/#", both.clone()), Some(FilterItem::from("a.b".to_string())));
    assert_eq!(item_from_captures("#address /a.b/#", both), None);
    assert_eq!(item_from_captures("x", Some((Some("a.b".to_string()), None))), None);
    assert_eq!(item_from_captures("x", Some((None, Some("#".to_string())))), None);
    assert_eq!(item_from_captures("x", None), None);
}

#[test]
fn later_lists_lie_over_earlier_ones() {
    let regex = line_regex().unwrap();
    let first = vec![
        "# a list".to_string(),
        "address /00-gov.cn/#".to_string(),
        "address /kwcdn.000dn.com/#".to_string(),
        "address /00-gov.cn/#".to_string(),
    ];
    let second = vec!["address /kwcdn.000dn.com/d".to_string()];
    assert_eq!(read_to_filter(&regex, &first).len(), 3);

    let blocked = read_resources_to_filter(&regex, &vec![first.clone(), second]);
    assert_eq!(blocked, vec!["00-gov.cn".to_string()]);

    let both = read_resources_to_filter(&regex, &vec![first]);
    assert_eq!(both, vec!["00-gov.cn".to_string(), "kwcdn.000dn.com".to_string()]);
    assert!(read_resources_to_filter(&regex, &vec![]).is_empty());
}

#[test]
fn lay_over_adds_and_takes_off() {
    let list = vec!["a".to_string(), "b".to_string()];
    let more = lay_over(list.clone(), &FilterItem::from("c".to_string()));
    assert_eq!(more, vec!["a", "b", "c"]);
    let same = lay_over(list.clone(), &FilterItem::from("a".to_string()));
    assert_eq!(same, vec!["a", "b"]);
    let less = lay_over(list, &FilterItem { domain: "a".to_string(), group: "d".to_string() });
    assert_eq!(less, vec!["b"]);
}

#[test]
fn a_name_is_blocked_with_every_name_below_it() {
    let filter = Filter::from(vec!["00-gov.cn".to_string(), "ads.example.com".to_string()]);
    assert_eq!(filter.len(), 2);
    assert!(filter.contain(&"00-gov.cn".to_string()));
    assert!(filter.contain(&"www.00-gov.cn".to_string()));
    assert!(filter.contain(&"a.b.ads.example.com".to_string()));
    assert!(!filter.contain(&"example.com".to_string()));
    assert!(!filter.contain(&"x00-gov.cn".to_string()));
    assert!(!filter.contain(&"cn".to_string()));
    assert!(!filter.contain(&String::new()));
    assert!(!Filter::from(vec![]).contain(&"a".to_string()));
    assert!(Filter::from(vec![String::new()]).contain(&"a.".to_string()));
}

#[test]
fn test_filter_item_overcast() {
    let regex = line_regex().unwrap();
    let filters: Vec<Vec<String>> = vec![
        vec!["address /00-gov.cn/#\n".to_string(), "address /kwcdn.000dn.com/#\n".to_string()],
        vec!["address /kwcdn.000dn.com/d\n".to_string()],
    ];

    let result = read_resources_to_filter(&regex, &filters);

    let expected = vec![String::from("00-gov.cn")];
    assert_eq!(expected, result);
}

#[test]
fn test_filter_path_empty() {
    let regex = line_regex().unwrap();
    let filters: Vec<Vec<String>> = vec![];

    let result = read_resources_to_filter(&regex, &filters);

    assert!(result.is_empty());
}

#[test]
fn the_pattern_of_a_line_compiles_and_tells_letter_case_apart() {
    let regex = line_regex().unwrap();
    assert_eq!(
        handle_one_line(&regex, &"address /A.b/#".to_string()),
        Some(FilterItem::from("A.b".to_string()))
    );
    assert_eq!(handle_one_line(&regex, &"ADDRESS /a.b/#".to_string()), None);
    assert_eq!(handle_one_line(&regex, &"address /a.b/D".to_string()), None);
}
