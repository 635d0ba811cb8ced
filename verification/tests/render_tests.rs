use json_treemap::color::{Colorizer, TermColor};
use json_treemap::json::JsonValue;
use json_treemap::render::{render_document, render_root, DisplaySettings, RenderLine};
use json_treemap::tree::{Node, resolve_depth_cap};
use json_treemap::units::Unit;

fn obj(entries: Vec<(&str, JsonValue)>) -> JsonValue {
    JsonValue::Obj(entries.into_iter().map(|(k, v)| (k.to_string(), v)).collect())
}

fn num(text: &str) -> JsonValue {
    JsonValue::Num(text.to_string())
}

fn s(text: &str) -> JsonValue {
    JsonValue::Str(text.to_string())
}

fn settings(width: usize) -> DisplaySettings {
    DisplaySettings {
        counter: Unit::Bytes,
        colorizer: Colorizer::NoColor,
        depth: None,
        width,
    }
}

fn render(v: &JsonValue, threshold: u64, st: &DisplaySettings) -> Vec<RenderLine> {
    let root = Node::from_json(v, 0, "Root".to_string());
    render_root(&root, threshold, st)
}

#[test]
fn percentages_and_magnitudes() {
    // {"a": 1, "b": [1,2,3]}: a takes 25%, b takes 75%
    let v = obj(vec![
        ("a", num("1")),
        ("b", JsonValue::Arr(vec![num("1"), num("2"), num("3")])),
    ]);
    let lines = render(&v, 0, &settings(100));
    assert_eq!(lines.len(), 3);
    assert!(lines[0].header.contains("100.00%"));
    assert!(lines[0].header.contains("   (4.00 B)"));
    assert!(lines[0].header.starts_with("Root "));
    assert!(lines[1].header.contains(" 25.00%"));
    assert!(lines[1].header.starts_with("  a "));
    assert!(lines[2].header.contains(" 75.00%"));
    assert!(lines[2].header.contains("[3] b"));
}

#[test]
fn bar_lengths_are_proportional() {
    let v = obj(vec![
        ("a", num("1")),
        ("b", JsonValue::Arr(vec![num("1"), num("2"), num("3")])),
    ]);
    let lines = render(&v, 0, &settings(100));
    // width 100: label column 54, bar column 25
    assert_eq!(lines[0].bar.chars().count(), 25);
    assert_eq!(lines[1].bar.chars().count(), 6);
    assert_eq!(lines[2].bar.chars().count(), 18);
    assert!(lines[0].bar.chars().all(|c| c == '\u{2592}'));
}

#[test]
fn zero_total_renders_nothing() {
    let lines = render(&JsonValue::Arr(vec![]), 0, &settings(100));
    assert!(lines.is_empty());
    // a document whose bytes weigh nothing still renders under the other unit
    let st = DisplaySettings { counter: Unit::Children, ..settings(100) };
    let lines = render(&JsonValue::Arr(vec![]), 0, &st);
    assert!(lines.is_empty());
}

#[test]
fn depth_cap_cuts_subtrees() {
    let deep = obj(vec![("a", obj(vec![("b", obj(vec![("c", num("1"))]))]))]);
    let root = Node::from_json(&deep, 0, "Root".to_string());
    assert_eq!(root.max_depth(), 3);
    // a request of -1 against true depth 3 resolves to 1: only the root
    let cap = resolve_depth_cap(-1, root.max_depth());
    assert_eq!(cap, 1);
    let st = DisplaySettings { depth: Some(cap), ..settings(100) };
    let lines = render_root(&root, 0, &st);
    assert_eq!(lines.len(), 1);
    assert!(lines[0].header.starts_with("Root"));
    // a cap of zero renders nothing at all
    let st0 = DisplaySettings { depth: Some(0), ..settings(100) };
    assert!(render_root(&root, 0, &st0).is_empty());
}

#[test]
fn threshold_prunes_small_subtrees() {
    // total 500000 bytes; 10000-char leaf is 2% and stays, 100-char is 0.02%
    let v = obj(vec![
        ("pad", s(&"x".repeat(489900))),
        ("big", s(&"y".repeat(10000))),
        ("small", s(&"z".repeat(100))),
    ]);
    // threshold of one percent, in millionths of the total
    let lines = render(&v, 10000, &settings(100));
    assert_eq!(lines.len(), 3);
    assert!(lines.iter().any(|l| l.header.contains("big")));
    assert!(lines.iter().all(|l| !l.header.contains("small")));
}

#[test]
fn labels_truncate_with_ellipsis() {
    // width 40 leaves a label column of 14
    let v = obj(vec![("a_quite_unreasonably_long_key", num("1"))]);
    let lines = render(&v, 0, &settings(40));
    let header: Vec<char> = lines[1].header.chars().collect();
    // 12 kept characters, the ellipsis, then the padding space
    assert_eq!(header[12], '\u{2026}');
    assert_eq!(header[13], ' ');
    let label: String = header[..12].iter().collect();
    assert_eq!(label, "  a_quite_un");
}

#[test]
fn cardinality_marker_is_comma_grouped() {
    let elems: Vec<JsonValue> = (0..1234).map(|_| num("7")).collect();
    let v = obj(vec![("list", JsonValue::Arr(elems))]);
    let lines = render(&v, 0, &settings(100));
    assert!(lines[1].header.contains("[1,234] list"));
}

#[test]
fn colors_follow_the_policies() {
    assert_eq!(
        Colorizer::Hellscape.colorize(1, 2),
        TermColor::TrueColor { r: 177, g: 100, b: 100 }
    );
    assert_eq!(
        Colorizer::Gradient.colorize(1, 2),
        TermColor::TrueColor { r: 177, g: 123, b: 100 }
    );
    assert_eq!(
        Colorizer::Monochrome.colorize(1, 1),
        TermColor::TrueColor { r: 255, g: 255, b: 255 }
    );
    assert_eq!(Colorizer::NoColor.colorize(1, 2), TermColor::White);
    // the full-share gradient bottoms out at 45 green
    assert_eq!(
        Colorizer::Gradient.colorize(1, 1),
        TermColor::TrueColor { r: 255, g: 45, b: 100 }
    );
}

#[test]
fn rendered_lines_carry_the_policy_color() {
    let v = obj(vec![("a", num("1"))]);
    let st = DisplaySettings { colorizer: Colorizer::Hellscape, ..settings(100) };
    let lines = render(&v, 0, &st);
    assert_eq!(lines[0].color, TermColor::TrueColor { r: 255, g: 100, b: 100 });
}

#[test]
fn magnitude_formatting() {
    assert_eq!(Unit::Bytes.format(4), "4.00 B");
    assert_eq!(Unit::Bytes.format(2048), "2.00 KiB");
    assert_eq!(Unit::Children.format(2), "2.00 ");
    assert_eq!(Unit::Children.format(1500000), "1.50 M");
}

#[test]
fn whole_pipeline() {
    let v = obj(vec![
        ("a", num("1")),
        ("b", JsonValue::Arr(vec![num("1"), num("2"), num("3")])),
    ]);
    let (root, lines) = render_document(&v, 0, Unit::Bytes, Colorizer::NoColor, None, 100);
    assert_eq!(root.size_b, 4);
    assert_eq!(lines.len(), 3);
    assert!(lines[1].header.contains(" 25.00%"));

    // a depth request of -1 against true depth 3 leaves only the root line
    let deep = obj(vec![("a", obj(vec![("b", obj(vec![("c", num("1"))]))]))]);
    let (_, lines) = render_document(&deep, 0, Unit::Bytes, Colorizer::NoColor, Some(-1), 100);
    assert_eq!(lines.len(), 1);
}
