use shutup_bot::endpoints::{cbz_file_name, plan_cbz, split_url_and_name, telegram_file_url, AttachedDocument, PdfSource};

#[test]
fn argument_splits_at_the_first_space() {
    assert_eq!(
        split_url_and_name("http://x/a.pdf my book.pdf"),
        ("http://x/a.pdf".to_string(), Some("my book.pdf".to_string()))
    );
    assert_eq!(split_url_and_name("http://x/a.pdf"), ("http://x/a.pdf".to_string(), None));
    assert_eq!(split_url_and_name(""), ("".to_string(), None));
    assert_eq!(split_url_and_name(" name"), ("".to_string(), Some("name".to_string())));
}

#[test]
fn attached_document_without_url_is_fetched_from_telegram() {
    let doc = AttachedDocument { file_id: "FILE".to_string(), file_name: Some("vol1.pdf".to_string()) };
    let plan = plan_cbz("", Some(doc));
    assert!(matches!(&plan.source, PdfSource::TelegramFile(id) if id == "FILE"));
    assert_eq!(plan.file_name, Some("vol1.pdf".to_string()));
}

#[test]
fn attached_document_with_url_downloads_the_url_under_the_documents_name() {
    let doc = AttachedDocument { file_id: "FILE".to_string(), file_name: None };
    let plan = plan_cbz("http://x/a.pdf other", Some(doc));
    assert!(matches!(&plan.source, PdfSource::Url(u) if u == "http://x/a.pdf"));
    assert_eq!(plan.file_name, None);
}

#[test]
fn url_without_document_keeps_the_given_name() {
    let plan = plan_cbz("http://x/a.pdf vol2.pdf", None);
    assert!(matches!(&plan.source, PdfSource::Url(u) if u == "http://x/a.pdf"));
    assert_eq!(plan.file_name, Some("vol2.pdf".to_string()));
    let plan = plan_cbz("", None);
    assert!(matches!(plan.source, PdfSource::NoFile));
}

#[test]
fn archive_names() {
    assert_eq!(cbz_file_name(Some("vol1.pdf".to_string())), "vol1.cbz");
    assert_eq!(cbz_file_name(Some("a.b.pdf".to_string())), "a.b.cbz");
    assert_eq!(cbz_file_name(Some("notes".to_string())), "notes.cbz");
    assert_eq!(cbz_file_name(Some(".pdf".to_string())), ".cbz");
    assert_eq!(cbz_file_name(None), "somethingsomething.bin");
}

#[test]
fn file_url_of_the_telegram_file_server() {
    assert_eq!(
        telegram_file_url("123:ABC", "documents/file_1.pdf"),
        "https://api.telegram.org/file/bot123:ABC/documents/file_1.pdf"
    );
}
