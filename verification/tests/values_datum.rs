use prom_cloudwatch::datum::{build_datum, scrape_to_metric_data, Sample, Warning};
use prom_cloudwatch::dimensions::Label;
use prom_cloudwatch::time::Timestamp;
use prom_cloudwatch::values::{select_value, MetricValue, TaggedValue};

fn value(bits_of: f64) -> MetricValue {
    MetricValue { bits: bits_of.to_bits() }
}

#[test]
fn selector_passes_scalars_through() {
    let (v, warned) = select_value(&TaggedValue::Counter(value(5.0)));
    assert_eq!(f64::from_bits(v.bits), 5.0);
    assert!(!warned);

    let (v, warned) = select_value(&TaggedValue::Gauge(value(-2.5)));
    assert_eq!(f64::from_bits(v.bits), -2.5);
    assert!(!warned);

    let (v, warned) = select_value(&TaggedValue::Untyped(value(0.0)));
    assert_eq!(f64::from_bits(v.bits), 0.0);
    assert!(!warned);
}

#[test]
fn selector_substitutes_zero_and_warns() {
    let (v, warned) = select_value(&TaggedValue::Other);
    assert_eq!(f64::from_bits(v.bits), 0.0);
    assert!(warned);
}

fn sample_with(value: TaggedValue, labels: Vec<Label>) -> Sample {
    Sample {
        metric: "node_cpu_seconds_total".to_string(),
        labels,
        value,
        timestamp: Timestamp { secs: 1431648000, nanos: 0 },
    }
}

#[test]
fn datum_copies_name_value_and_renders_timestamp() {
    let s = sample_with(
        TaggedValue::Gauge(value(7.25)),
        vec![Label { name: "mode".to_string(), value: "idle".to_string() }],
    );
    let (point, warnings) = build_datum(&s);
    assert_eq!(point.metric_name.as_str(), "node_cpu_seconds_total");
    assert_eq!(f64::from_bits(point.value.bits), 7.25);
    assert_eq!(point.dimensions.len(), 1);
    assert_eq!(point.dimensions[0].name.as_str(), "mode");
    assert_eq!(point.timestamp.as_str(), "2015-05-15T00:00:00+00:00");
    assert!(warnings.is_empty());
}

#[test]
fn epoch_renders_as_rfc3339() {
    let s = sample_with(TaggedValue::Counter(value(1.0)), vec![]);
    let s = Sample { timestamp: Timestamp { secs: 0, nanos: 0 }, ..s };
    let (point, _) = build_datum(&s);
    assert_eq!(point.timestamp.as_str(), "1970-01-01T00:00:00+00:00");
}

#[test]
fn unsupported_value_yields_point_with_zero_and_warning() {
    let s = sample_with(TaggedValue::Other, vec![]);
    let (point, warnings) = build_datum(&s);
    assert_eq!(f64::from_bits(point.value.bits), 0.0);
    assert_eq!(warnings.len(), 1);
    assert_eq!(
        warnings[0],
        Warning::UnsupportedValue { metric: "node_cpu_seconds_total".to_string() }
    );
}

#[test]
fn overflow_warning_lists_dropped_dimensions() {
    let labels: Vec<Label> = (0..12)
        .map(|i| Label { name: format!("l{:02}", i), value: "v".to_string() })
        .collect();
    let (point, warnings) = build_datum(&sample_with(TaggedValue::Counter(value(1.0)), labels));
    assert_eq!(point.dimensions.len(), 10);
    assert_eq!(warnings.len(), 1);
    match &warnings[0] {
        Warning::DimensionOverflow { dropped } => {
            assert_eq!(dropped.len(), 2);
            assert_eq!(dropped[0].name.as_str(), "l10");
            assert_eq!(dropped[1].name.as_str(), "l11");
        }
        w => panic!("unexpected warning: {:?}", w),
    }
}

#[test]
fn datum_builder_is_idempotent() {
    let s = sample_with(
        TaggedValue::Counter(value(3.5)),
        vec![
            Label { name: "b".to_string(), value: "2".to_string() },
            Label { name: "a".to_string(), value: "1".to_string() },
        ],
    );
    let (p1, w1) = build_datum(&s);
    let (p2, w2) = build_datum(&s);
    assert_eq!(p1.metric_name, p2.metric_name);
    assert_eq!(p1.dimensions, p2.dimensions);
    assert_eq!(p1.value.bits, p2.value.bits);
    assert_eq!(p1.timestamp, p2.timestamp);
    assert_eq!(w1, w2);
}

#[test]
fn one_point_per_sample_in_order() {
    let samples = vec![
        sample_with(TaggedValue::Counter(value(1.0)), vec![]),
        sample_with(TaggedValue::Other, vec![]),
        sample_with(TaggedValue::Gauge(value(2.0)), vec![]),
    ];
    let (points, warnings) = scrape_to_metric_data(&samples);
    assert_eq!(points.len(), 3);
    assert_eq!(f64::from_bits(points[0].value.bits), 1.0);
    assert_eq!(f64::from_bits(points[1].value.bits), 0.0);
    assert_eq!(f64::from_bits(points[2].value.bits), 2.0);
    assert_eq!(warnings.len(), 1);
}
