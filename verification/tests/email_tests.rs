use collection_email_worker::email::{
    add_client_tracking, build_client_email, compose_email_body, encode_attachments, from_header,
    inject_tracking_pixel, invoice_rows, parse_sender, provider_for, template_pairs, ProviderKind,
};
use collection_email_worker::json::context_json;
use collection_email_worker::models::{
    Attachment, CollectionClient, CustomData, EmailTemplate, Invoice, RecipientStatus,
};

fn client() -> CollectionClient {
    let mut cd = CustomData::empty();
    cd.email = Some("a@x.com".to_string());
    cd.full_name = Some("Ana".to_string());
    cd.total_amount_due = Some(1500000);
    CollectionClient {
        id: "c1".to_string(),
        execution_id: "exec-1".to_string(),
        status: RecipientStatus::Pending,
        invoices: None,
        custom_data: Some(cd),
        email_template_id: None,
        customer_id: None,
        threshold_id: None,
    }
}

#[test]
fn test_provider_for_defaults_to_ses() {
    assert_eq!(provider_for("ses"), ProviderKind::Ses);
    assert_eq!(provider_for(""), ProviderKind::Ses);
    assert_eq!(provider_for("unknown"), ProviderKind::Ses);
}

#[test]
fn test_provider_for_brevo_case_insensitive() {
    // Exercises the real case folding: an identity fold would pick SES.
    assert_eq!(provider_for("brevo"), ProviderKind::Brevo);
    assert_eq!(provider_for("BREVO"), ProviderKind::Brevo);
}

#[test]
fn test_parse_sender_bracketed() {
    let s = parse_sender("Tienda Azul <notify@borls.com>");
    assert_eq!(s.name, "Tienda Azul");
    assert_eq!(s.email, "notify@borls.com");
}

#[test]
fn test_parse_sender_bare_address() {
    let s = parse_sender("notify@borls.com");
    assert_eq!(s.name, "notify@borls.com");
    assert_eq!(s.email, "notify@borls.com");
}

#[test]
fn test_from_header() {
    assert_eq!(from_header("APEX"), "APEX - Cartera <notify@borls.com>");
}

#[test]
fn test_inject_tracking_pixel_before_body_close() {
    let out = inject_tracking_pixel(
        "<html><body>x</body></html>",
        "https://t.example",
        Some("c1"),
        Some("e1"),
        Some("m1"),
    );
    assert!(out.contains(
        "<img src=\"https://t.example/api/track/open?client_id=c1&execution_id=e1&message_id=m1\""
    ));
    assert!(out.ends_with("</body></html>"));
    let pixel_at = out.find("<img").unwrap();
    let body_at = out.find("</body>").unwrap();
    assert!(pixel_at < body_at);
}

#[test]
fn test_inject_tracking_pixel_requires_ids() {
    let html = "<html><body>x</body></html>";
    assert_eq!(inject_tracking_pixel(html, "https://t", None, Some("e1"), None), html);
    assert_eq!(inject_tracking_pixel(html, "https://t", Some("c1"), None, None), html);
}

#[test]
fn test_inject_tracking_pixel_appends_without_body() {
    let out = inject_tracking_pixel("plain", "https://t", Some("c1"), Some("e1"), None);
    assert!(out.starts_with("plain<img src=\"https://t/api/track/open?client_id=c1"));
}

#[test]
fn test_add_client_tracking_passes_through() {
    assert_eq!(add_client_tracking("<p>x</p>", Some("c"), Some("e"), None), "<p>x</p>");
}

#[test]
fn test_encode_attachments_base64() {
    // A wrapper handing bytes back unchanged would fail this.
    let atts = vec![Attachment {
        id: "a1".to_string(),
        name: "f.txt".to_string(),
        storage_path: "p".to_string(),
        storage_bucket: "b".to_string(),
        file_type: Some("text/plain".to_string()),
        data: b"hi".to_vec(),
    }];
    let enc = encode_attachments(&atts);
    assert_eq!(enc.len(), 1);
    assert_eq!(enc[0].name, "f.txt");
    assert_eq!(enc[0].content, "aGk=");
}

#[test]
fn test_template_pairs_fallbacks() {
    let mut c = client();
    c.custom_data.as_mut().unwrap().full_name = None;
    let pairs = template_pairs(&c);
    assert_eq!(pairs[0], ("full_name".to_string(), "Cliente".to_string()));
    assert_eq!(pairs[1], ("total_amount_due".to_string(), "1.500.000".to_string()));
}

#[test]
fn test_context_json_escapes() {
    let pairs = vec![("k".to_string(), "v\"x\n".to_string())];
    let out = context_json(&pairs, &Vec::new());
    assert_eq!(out, "{\"k\":\"v\\\"x\\n\",\"invoices\":[]}");
}

#[test]
fn test_invoice_rows_format_amounts() {
    let invoices = Some(vec![Invoice {
        amount_due: Some(250000),
        fields: vec![("concept".to_string(), "marzo".to_string())],
    }]);
    let rows = invoice_rows(&invoices);
    assert_eq!(rows.len(), 1);
    assert_eq!(rows[0][0], ("concept".to_string(), "marzo".to_string()));
    assert_eq!(rows[0][1], ("amount_due".to_string(), "250.000".to_string()));
}

#[test]
fn test_compose_email_body_happy_path() {
    let data = "{\"full_name\":\"Ana\",\"invoices\":[]}";
    let out = compose_email_body("<p>Hola {{full_name}}</p>", data, "Cliente", "0");
    assert!(out.contains("Hola Ana"));
    assert!(out.starts_with("<!DOCTYPE html>"));
}

#[test]
fn test_compose_email_body_fallback_on_render_error() {
    // A broken template falls back to two-token substitution.
    let out = compose_email_body(
        "Estimado {{nombre}}, debe {{monto}}. {{#broken}",
        "{}",
        "Ana",
        "1.500.000",
    );
    assert_eq!(out, "Estimado Ana, debe 1.500.000. {{#broken}");
}

#[test]
fn test_build_client_email_happy_path() {
    let template = EmailTemplate {
        id: "tpl-1".to_string(),
        subject: "Recordatorio".to_string(),
        content: "<p>Hola {{full_name}}, saldo {{total_amount_due}}</p>".to_string(),
    };
    let c = client();
    let msg = build_client_email(
        &template,
        &c,
        &vec!["a@x.com".to_string()],
        &Vec::new(),
        "exec-1",
        "Tienda Azul",
    );
    assert_eq!(msg.to, vec!["a@x.com".to_string()]);
    assert_eq!(msg.subject, "Recordatorio");
    assert_eq!(msg.from, "Tienda Azul - Cartera <notify@borls.com>");
    assert_eq!(msg.client_id, Some("c1".to_string()));
    assert_eq!(msg.execution_id, Some("exec-1".to_string()));
    assert_eq!(msg.message_id, None);
    assert_eq!(msg.text_body, "Por favor habilite HTML para ver este correo.");
    assert!(msg.html_body.contains("Hola Ana, saldo 1.500.000"));
}
