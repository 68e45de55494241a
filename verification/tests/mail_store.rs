use server::smtp::Mail;
use server::store::store_with_mail;
use server::store::StoreError;

fn sample_mail() -> Mail {
    Mail {
        from: "<a@b.cc>".to_string(),
        to: vec!["<c@d.ee>".to_string(), "<f@g.hh>".to_string()],
        data: "Subject: Hi\r\n\r\nHello there".to_string(),
    }
}

const RECORD: &str = r#"{"body":"Hello there","recipient":["<c@d.ee>","<f@g.hh>"],"sender":"<a@b.cc>","subject":"Hi"}"#;

#[test]
fn first_store_holds_one_record() {
    let v = store_with_mail(None, &sample_mail()).unwrap();
    assert_eq!(serde_json::to_string(&v).unwrap(), format!("[{}]", RECORD));
}

#[test]
fn earlier_records_stay_in_order() {
    let existing = r#"[{"x": 1}, "two", 3]"#;
    let v = store_with_mail(Some(existing), &sample_mail()).unwrap();
    assert_eq!(
        serde_json::to_string(&v).unwrap(),
        format!(r#"[{{"x":1}},"two",3,{}]"#, RECORD)
    );
    let v = store_with_mail(Some("[]"), &sample_mail()).unwrap();
    assert_eq!(v.len(), 1);
}

#[test]
fn store_that_is_not_an_array_is_refused() {
    assert_eq!(store_with_mail(Some("{}"), &sample_mail()).unwrap_err(), StoreError::NotAnArray);
    assert_eq!(store_with_mail(Some("not json"), &sample_mail()).unwrap_err(), StoreError::NotAnArray);
    assert_eq!(store_with_mail(Some(""), &sample_mail()).unwrap_err(), StoreError::NotAnArray);
}

#[test]
fn record_without_subject_or_body() {
    let mail = Mail {
        from: "<a@b.cc>".to_string(),
        to: vec![],
        data: "plain".to_string(),
    };
    let v = store_with_mail(None, &mail).unwrap();
    assert_eq!(
        serde_json::to_string(&v).unwrap(),
        r#"[{"body":"No Body Found","recipient":[],"sender":"<a@b.cc>","subject":"No Subject"}]"#
    );
}
