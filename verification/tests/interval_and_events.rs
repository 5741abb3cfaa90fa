use bluth::datastar::{
    lines_of, patch_signals_event, DatastarInterval, PatchElements, PatchMode, PatchNamespace,
};

#[test]
fn test_datastar_interval_seconds() {
    let interval = DatastarInterval::new(1000);
    assert_eq!(interval.attr_string(), "data-on-interval__duration.1s");
}

#[test]
fn test_datastar_interval_milliseconds() {
    let interval = DatastarInterval::new(500);
    assert_eq!(interval.attr_string(), "data-on-interval__duration.500ms");
}

#[test]
fn test_datastar_interval_minutes() {
    let interval = DatastarInterval::new(120 * 1000);
    assert_eq!(interval.attr_string(), "data-on-interval__duration.120s");
}

#[test]
fn test_datastar_interval_with_leading() {
    let interval = DatastarInterval::new(1000).leading();
    assert_eq!(interval.attr_string(), "data-on-interval__duration.1s.leading");
}

#[test]
fn test_datastar_interval_with_viewtransition() {
    let interval = DatastarInterval::new(500).viewtransition();
    assert_eq!(
        interval.attr_string(),
        "data-on-interval__duration.500ms__viewtransition"
    );
}

#[test]
fn test_datastar_interval_with_all_modifiers() {
    let interval = DatastarInterval::new(2000).leading().viewtransition();
    assert_eq!(
        interval.attr_string(),
        "data-on-interval__duration.2s.leading__viewtransition"
    );
}

#[test]
fn test_datastar_interval_mixed_units() {
    let interval = DatastarInterval::new(1500);
    assert_eq!(interval.attr_string(), "data-on-interval__duration.1500ms");
}

#[test]
fn patch_elements_plain() {
    let patch = PatchElements::new(vec!["<div>hi</div>".to_string()]);
    assert_eq!(
        patch.event_string(),
        "event: datastar-patch-elements\ndata: elements <div>hi</div>\n\n"
    );
}

#[test]
fn patch_elements_with_options() {
    let mut patch = PatchElements::new(vec!["<p>a</p>\n<p>b</p>".to_string()]);
    patch.selector = Some("#target".to_string());
    patch.mode = Some(PatchMode::Inner);
    patch.namespace = Some(PatchNamespace::Svg);
    patch.use_view_transition = Some(true);
    assert_eq!(
        patch.event_string(),
        "event: datastar-patch-elements\n\
         data: selector #target\n\
         data: mode inner\n\
         data: namespace Svg\n\
         data: useViewTransition true\n\
         data: elements <p>a</p>\n\
         data: elements <p>b</p>\n\n"
    );
}

#[test]
fn patch_mode_names() {
    assert_eq!(PatchMode::Outer.as_str(), "outer");
    assert_eq!(PatchMode::Before.as_str(), "before");
    assert_eq!(PatchMode::Remove.as_str(), "remove");
    assert_eq!(PatchNamespace::MathML.as_str(), "MathML");
}

#[test]
fn patch_signals_framing() {
    let text = patch_signals_event(Some(false), "{\"count\":1}");
    assert_eq!(
        text,
        "event: datastar-patch-signals\ndata: onlyIfMissing false\ndata: signals {\"count\":1}\n\n"
    );
    let plain = patch_signals_event(None, "{}");
    assert_eq!(plain, "event: datastar-patch-signals\ndata: signals {}\n\n");
}

#[test]
fn lines_split_like_the_host() {
    let lines = lines_of("a\r\nb\nc");
    assert_eq!(lines, vec!["a".to_string(), "b".to_string(), "c".to_string()]);
    assert_eq!(lines_of("a\n"), vec!["a".to_string()]);
    assert_eq!(lines_of(""), Vec::<String>::new());
    assert_eq!(lines_of("\n\n"), vec!["".to_string(), "".to_string()]);
}
