use collection_email_worker::preprocess::preprocess_tiptap_template;

#[test]
fn test_preprocess_bare_td() {
    // Basic: no p-wrapper, no extra cells
    let input = "<tr><td>{{#each invoices}}</td></tr>";
    assert_eq!(preprocess_tiptap_template(input), "{{#each invoices}}");
}

#[test]
fn test_preprocess_bare_td_empty_siblings() {
    // Legacy snippet: 4 bare empty <td></td> siblings
    let input = "<tr><td style=\"color:gray\">{{#each invoices}}</td><td></td><td></td><td></td><td></td></tr>";
    assert_eq!(preprocess_tiptap_template(input), "{{#each invoices}}");
}

#[test]
fn test_preprocess_p_wrapper_inside_td() {
    // TipTap wraps content in <p>; empty siblings become <td><p></p></td>
    let input = "<tr><td style=\"color:gray\"><p>{{#each invoices}}</p></td><td><p></p></td><td><p></p></td><td><p></p></td><td><p></p></td></tr>";
    assert_eq!(preprocess_tiptap_template(input), "{{#each invoices}}");
}

#[test]
fn test_preprocess_end_helper_with_p_wrapper() {
    // Same pattern for closing {{/each}}
    let input = "<tr><td style=\"color:gray\"><p>{{/each}}</p></td><td><p></p></td><td><p></p></td></tr>";
    assert_eq!(preprocess_tiptap_template(input), "{{/each}}");
}

#[test]
fn test_preprocess_newline_before_helper_removed() {
    let input = "a\n{{#each invoices}}b\n{{/each}}";
    assert_eq!(preprocess_tiptap_template(input), "a{{#each invoices}}b{{/each}}");
}

#[test]
fn test_preprocess_newline_run_before_helper_removed() {
    let input = "a\n\n{{#x}}";
    assert_eq!(preprocess_tiptap_template(input), "a{{#x}}");
}

#[test]
fn test_preprocess_plain_text_unchanged() {
    let input = "<p>Hola {{full_name}}</p>\nsaldo";
    assert_eq!(preprocess_tiptap_template(input), "<p>Hola {{full_name}}</p>\nsaldo");
}

#[test]
fn test_preprocess_idempotent_on_wrapper_rows() {
    let inputs = vec![
        "<tr><td>{{#each invoices}}</td></tr>",
        "<tr><td style=\"color:gray\">{{#each invoices}}</td><td></td></tr>",
        "<tr><td><p>{{/each}}</p></td><td><p></p></td></tr>",
        "a\n\n{{#x}} mixed <tr><td>{{!note}}</td></tr> tail",
        "<p>plain</p>",
    ];
    for input in inputs {
        let once = preprocess_tiptap_template(input);
        let twice = preprocess_tiptap_template(&once);
        assert_eq!(twice, once);
    }
}
