use collection_email_worker::render::{
    enhance_invoice_tables, fix_empty_paragraphs, inline_css, preserve_line_breaks,
    render_template, wrap_with_styles,
};

#[test]
fn test_preserve_line_breaks_doubles_and_singles() {
    assert_eq!(preserve_line_breaks("a\n\nb\nc"), "a<br><br>b<br>c");
    assert_eq!(preserve_line_breaks("plain"), "plain");
}

#[test]
fn test_fix_empty_paragraphs_bare() {
    assert_eq!(fix_empty_paragraphs("<p></p>"), "<p>&nbsp;</p>");
    assert_eq!(fix_empty_paragraphs("<p>  </p>"), "<p>&nbsp;</p>");
}

#[test]
fn test_fix_empty_paragraphs_keeps_attributes() {
    assert_eq!(
        fix_empty_paragraphs("<p class=\"x\"> </p>"),
        "<p class=\"x\">&nbsp;</p>"
    );
}

#[test]
fn test_fix_empty_paragraphs_leaves_content() {
    assert_eq!(fix_empty_paragraphs("<p>hola</p>"), "<p>hola</p>");
}

#[test]
fn test_enhance_invoice_tables_wraps_tiptap() {
    let input = "<table class=\"tiptap-table\"><tr><td>x</td></tr></table>";
    let out = enhance_invoice_tables(input);
    assert!(out.starts_with("<div style=\"margin: 0 auto; overflow-x: auto;\"><table"));
    assert!(out.ends_with("</table></div>"));
}

#[test]
fn test_enhance_invoice_tables_ignores_plain_tables() {
    let input = "<table><tr><td>x</td></tr></table>";
    assert_eq!(enhance_invoice_tables(input), input);
}

#[test]
fn test_wrap_with_styles_shells_body() {
    let out = wrap_with_styles("<p>cuerpo</p>");
    assert!(out.starts_with("<!DOCTYPE html>"));
    assert!(out.contains("<p>cuerpo</p>"));
    assert!(out.contains("width: 720px"));
    assert!(out.ends_with("</html>"));
}

#[test]
fn test_render_template_substitutes() {
    // Exercises the real template engine: a constant function would fail.
    let out = render_template("Hola {{full_name}}", "{\"full_name\":\"Ana\"}").unwrap();
    assert_eq!(out, "Hola Ana");
}

#[test]
fn test_render_template_no_escape() {
    let out = render_template("{{v}}", "{\"v\":\"<b>&amp;</b>\"}").unwrap();
    assert_eq!(out, "<b>&amp;</b>");
}

#[test]
fn test_render_template_each_block() {
    let out = render_template(
        "<tr><td>{{#each invoices}}</td></tr>{{amount_due}} {{/each}}",
        "{\"invoices\":[{\"amount_due\":\"1.000\"},{\"amount_due\":\"2.000\"}]}",
    )
    .unwrap();
    assert_eq!(out, "1.000 2.000 ");
}

#[test]
fn test_render_template_bad_template_fails() {
    assert!(render_template("{{#each}", "{}").is_none());
}

#[test]
fn test_inline_css_moves_styles() {
    let out = inline_css("<html><head><style>p { color: red; }</style></head><body><p>x</p></body></html>")
        .unwrap();
    assert!(out.contains("color: red"));
    assert!(out.contains("<p style="));
    assert!(!out.contains("<style>"));
}
