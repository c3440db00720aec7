use floatdea::app::math::{
    drawn_formula, formula_align, formula_request, formula_source, math_hash, math_uri,
    render_formula, CachedMath, FormulaAlign, MathCache, MathKey, MATH_FONT_SIZE,
};

fn key(source: &str, inline: bool) -> MathKey {
    MathKey { source: source.to_owned(), inline }
}

#[test]
fn inline_and_display_formulas_have_distinct_cache_keys() {
    let inline = key("x^2", true);
    let display = key("x^2", false);

    assert_ne!(math_hash(&inline), math_hash(&display));
}

#[test]
fn formulas_are_asked_for_once() {
    let mut cache = MathCache::new();
    assert!(cache.get("x", true).is_none());
    assert!(cache.request(&key("x", true)));
    assert!(!cache.request(&key("x", true)));
    assert!(matches!(cache.get("x", true), Some(CachedMath::Pending)));
    // The display form is another formula.
    assert!(cache.request(&key("x", false)));
    cache.insert(key("x", true), CachedMath::Svg(vec![60]));
    assert!(!cache.request(&key("x", true)));
    assert!(matches!(cache.get("x", true), Some(CachedMath::Svg(bytes)) if bytes == &vec![60]));
    assert!(matches!(cache.get("x", false), Some(CachedMath::Pending)));
    cache.stopped(key("y", true), "gone");
    assert!(
        matches!(cache.get("y", true), Some(CachedMath::Error(e)) if e == "MathJax worker stopped: gone")
    );
}

#[test]
fn formulas_are_shown_as_their_source() {
    assert_eq!(formula_source("a", true), "$a$");
    assert_eq!(formula_source("a", false), "$$a$$");
    assert_eq!(math_uri(0xab), "mathjax://00000000000000ab.svg");
}

#[test]
fn mathjax_produces_svg() {
    let svg = match render_formula(&key(r"\frac{a}{b}", false)) {
        CachedMath::Svg(bytes) => String::from_utf8(bytes).unwrap(),
        _ => panic!("valid TeX should render"),
    };

    assert!(svg.contains("<svg"));
}

#[test]
fn drawn_formulas_are_kept_as_bytes() {
    assert!(
        matches!(drawn_formula(Ok("<svg\u{e9}".to_owned())), CachedMath::Svg(bytes) if bytes == "<svg\u{e9}".as_bytes())
    );
    assert!(
        matches!(drawn_formula(Err("bad".to_owned())), CachedMath::Error(text) if text == "bad")
    );
    assert!(matches!(formula_align(true), FormulaAlign::Left));
    assert!(matches!(formula_align(false), FormulaAlign::Center));
}

#[test]
fn formulas_are_drawn_as_they_stand() {
    let inline = formula_request(&key("x^2", true));
    assert_eq!(inline.source, "x^2");
    assert_eq!(inline.font_size, 8);
    assert!(matches!(inline.align, FormulaAlign::Left));
    let display = formula_request(&key(r"\sum", false));
    assert_eq!(display.source, r"\sum");
    assert_eq!(display.font_size, MATH_FONT_SIZE);
    assert!(matches!(display.align, FormulaAlign::Center));
}
