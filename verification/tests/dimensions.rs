use prom_cloudwatch::dimensions::{labels_to_dimensions, Dimension, Label};

fn to_labels(labels: &prometheus_parse::Labels) -> Vec<Label> {
    labels
        .iter()
        .map(|(k, v)| Label { name: k.clone(), value: v.clone() })
        .collect()
}

#[test]
fn test_labels_to_dimentions() {
    let scrape = r#"
metrics{a="1",b=""} 1 1
metrics{a="1",b="2",c="3",d="4",e="5",f="6",g="7",h="8",i="9",j="10",k="11"} 1 1
"#;
    let lines: Vec<_> = scrape.lines().map(|s| Ok(s.to_owned())).collect();
    let mut s = prometheus_parse::Scrape::parse(lines.into_iter())
        .unwrap()
        .samples
        .into_iter();

    assert_eq!(
        labels_to_dimensions(&to_labels(&s.next().unwrap().labels)).0.len(),
        1
    );
    assert_eq!(
        labels_to_dimensions(&to_labels(&s.next().unwrap().labels)).0.len(),
        10
    );
}

#[test]
fn scenario_a_blank_value_dropped() {
    let labels = vec![
        Label { name: "a".to_string(), value: "1".to_string() },
        Label { name: "b".to_string(), value: "".to_string() },
    ];
    let (kept, dropped) = labels_to_dimensions(&labels);
    assert_eq!(kept.len(), 1);
    assert_eq!(kept[0].name.as_str(), "a");
    assert_eq!(kept[0].value.as_str(), "1");
    assert!(dropped.is_empty());
}

#[test]
fn scenario_b_eleven_labels_truncated() {
    let names = ["a", "b", "c", "d", "e", "f", "g", "h", "i", "j", "k"];
    // hand the labels over in reverse so the sort has work to do
    let labels: Vec<Label> = names
        .iter()
        .rev()
        .enumerate()
        .map(|(i, n)| Label { name: n.to_string(), value: format!("{}", i + 1) })
        .collect();
    let (kept, dropped) = labels_to_dimensions(&labels);
    assert_eq!(kept.len(), 10);
    for (i, n) in names.iter().take(10).enumerate() {
        assert_eq!(kept[i].name.as_str(), *n);
    }
    assert_eq!(dropped.len(), 1);
    assert_eq!(dropped[0].name.as_str(), "k");
}

#[test]
fn sorts_byte_wise_by_name() {
    let labels = vec![
        Label { name: "a".to_string(), value: "3".to_string() },
        Label { name: "B".to_string(), value: "1".to_string() },
        Label { name: "_x".to_string(), value: "2".to_string() },
    ];
    let (kept, _) = labels_to_dimensions(&labels);
    // byte order: 'B' (0x42) < '_' (0x5F) < 'a' (0x61)
    assert_eq!(kept.len(), 3);
    assert_eq!(kept[0].name.as_str(), "B");
    assert_eq!(kept[1].name.as_str(), "_x");
    assert_eq!(kept[2].name.as_str(), "a");
}

#[test]
fn trims_only_for_the_filter() {
    let labels = vec![
        Label { name: "  ".to_string(), value: "1".to_string() },
        Label { name: "a".to_string(), value: " \t ".to_string() },
        Label { name: "b".to_string(), value: " x ".to_string() },
    ];
    let (kept, dropped) = labels_to_dimensions(&labels);
    // blank-after-trim name or value drops the label; kept text stays verbatim
    assert_eq!(kept.len(), 1);
    assert_eq!(kept[0].name.as_str(), "b");
    assert_eq!(kept[0].value.as_str(), " x ");
    assert!(dropped.is_empty());
}

#[test]
fn duplicate_names_survive_in_input_order() {
    let labels = vec![
        Label { name: "b".to_string(), value: "0".to_string() },
        Label { name: "a".to_string(), value: "2".to_string() },
        Label { name: "a".to_string(), value: "1".to_string() },
    ];
    let (kept, _) = labels_to_dimensions(&labels);
    // the sort is stable: equal names keep their input order, none is merged
    let expected = vec![
        Dimension { name: "a".to_string(), value: "2".to_string() },
        Dimension { name: "a".to_string(), value: "1".to_string() },
        Dimension { name: "b".to_string(), value: "0".to_string() },
    ];
    assert_eq!(kept, expected);
}
