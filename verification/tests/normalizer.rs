use calendar_events::normalize::normalize;

#[test]
fn anchor_becomes_link() {
    assert_eq!(
        normalize("<a href=\"http://x\">text</a>"),
        "[text](<http://x>)"
    );
}

#[test]
fn image_with_alt() {
    assert_eq!(normalize("<img src=\"http://i\" alt=\"a\">"), "![a](http://i)");
}

#[test]
fn image_without_alt_is_bare_src() {
    assert_eq!(normalize("<img src=\"http://i\">"), "http://i");
}

#[test]
fn plain_text_passes_through() {
    assert_eq!(normalize("hola mundo"), "hola mundo");
}

#[test]
fn anchor_without_href_uses_fallback() {
    assert_eq!(normalize("<a>aqui</a>"), "[aqui](<https://rustlang-es.org>)");
}

#[test]
fn text_flow_tags_degrade() {
    assert_eq!(normalize("<b>x</b>"), "**x**");
    assert_eq!(normalize("<strong>x</strong>"), "**x**");
    assert_eq!(normalize("<i>x</i>"), "*x*");
    assert_eq!(normalize("<em>x</em>"), "*x*");
    assert_eq!(normalize("a<br>b"), "a\nb");
    assert_eq!(normalize("<p>x</p>y"), "x\n\ny");
    assert_eq!(normalize("<ul><li>x</li><li>y</li></ul>"), "- x\n- y\n");
}

#[test]
fn unknown_tags_are_stripped() {
    assert_eq!(normalize("<div><span>x</span></div>"), "x");
}

#[test]
fn comments_vanish() {
    assert_eq!(normalize("a<!-- nada -->b"), "ab");
}

#[test]
fn unterminated_tag_kept_verbatim() {
    assert_eq!(normalize("a <b"), "a <b");
}

#[test]
fn quoting_styles_for_attributes() {
    assert_eq!(normalize("<a href='u'>t</a>"), "[t](<u>)");
    assert_eq!(normalize("<a href=u>t</a>"), "[t](<u>)");
    assert_eq!(normalize("<a href = \"u\">t</a>"), "[t](<u>)");
}

#[test]
fn image_inside_anchor() {
    assert_eq!(
        normalize("<a href=\"u\"><img src=\"s\"></a>"),
        "[s](<u>)"
    );
}

#[test]
fn stray_close_anchor_is_dropped() {
    assert_eq!(normalize("x</a>y"), "xy");
}

#[test]
fn self_closing_forms() {
    assert_eq!(normalize("a<br/>b"), "a\nb");
    assert_eq!(normalize("<img src=\"s\" />"), "s");
}

#[test]
fn normalize_is_pure() {
    let input = "<p><a href=\"http://x\">text</a> y <img src=\"i\" alt=\"z\"></p>";
    assert_eq!(normalize(input), normalize(input));
}
