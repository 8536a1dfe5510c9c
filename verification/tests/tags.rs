use lanis_rs::utils::crypt::tags::{decode_document, find_fragment};
use lanis_rs::utils::crypt::{
    decrypt_lanis_data, decrypt_lanis_encoded_tags, encrypt_lanis_data,
    encrypt_lanis_data_with_salt,
};

fn tag(plain: &[u8], key: &String) -> String {
    format!("<encoded>{}</encoded>", encrypt_lanis_data(plain, key))
}

/// The same replacement, made with the pattern `<encoded>(.*?)</encoded>`.
fn by_pattern(html: &str, key: &String) -> String {
    let pattern = regex::Regex::new(r"<encoded>(.*?)</encoded>").unwrap();
    pattern
        .replace_all(html, |found: &regex::Captures| match decrypt_lanis_data(&found[1], key) {
            Ok(plain) => String::from_utf8_lossy(&plain).into_owned(),
            Err(_) => String::new(),
        })
        .into_owned()
}

#[test]
fn document_without_fragments_is_unchanged() {
    let key = String::from("key");
    let documents = [
        "",
        "<html><body>nothing here</body></html>",
        "<encoded>",
        "</encoded>",
        "</encoded><encoded>",
        "<encoded>no end",
        "<encoded>line\nbreak</encoded>",
        "<ENCODED>x</ENCODED>",
        "< encoded>x</encoded>",
    ];
    for document in documents {
        assert_eq!(decrypt_lanis_encoded_tags(document, &key), document);
    }
}

#[test]
fn one_fragment_is_replaced_by_its_plaintext() {
    let key = String::from("-----BEGIN PUBLIC KEY-----\nabc\n-----END PUBLIC KEY-----\n");
    let html = format!("<p>{}</p>", tag(b"Hello, world", &key));
    assert_eq!(decrypt_lanis_encoded_tags(&html, &key), "<p>Hello, world</p>");
}

#[test]
fn fragments_are_replaced_in_order() {
    let key = String::from("session key");
    let html = format!(
        "a{}b{}{}c\n{}d",
        tag(b"1", &key),
        tag(b"two", &key),
        tag(b"", &key),
        tag(b"<b>four</b>", &key)
    );
    assert_eq!(decrypt_lanis_encoded_tags(&html, &key), "a1btwoc\n<b>four</b>d");
}

#[test]
fn text_around_fragments_is_kept() {
    let key = String::from("k");
    let html = format!("\u{e4}\u{f6}\u{fc} \u{20ac}{}\u{1f600}\r\n\t<x>", tag("gr\u{fc}n".as_bytes(), &key));
    assert_eq!(
        decrypt_lanis_encoded_tags(&html, &key),
        "\u{e4}\u{f6}\u{fc} \u{20ac}gr\u{fc}n\u{1f600}\r\n\t<x>"
    );
}

#[test]
fn fragment_that_does_not_decrypt_is_removed() {
    let key = String::from("k");
    let other = String::from("another key");
    let html = format!(
        "a<encoded>not a blob</encoded>b{}c<encoded></encoded>d{}e",
        tag(b"kept", &key),
        tag(b"foreign", &other)
    );
    let decoded = decrypt_lanis_encoded_tags(&html, &key);
    assert!(decoded.starts_with("abkeptcd"));
    assert!(decoded.ends_with("e"));
    assert_eq!(decoded, by_pattern(&html, &key));
}

#[test]
fn plaintext_is_not_decoded_again() {
    let key = String::from("k");
    let inner = tag(b"inner", &key);
    let html = format!("{}|{}", tag(inner.as_bytes(), &key), inner);
    assert_eq!(decrypt_lanis_encoded_tags(&html, &key), format!("{}|inner", inner));
}

#[test]
fn plaintext_that_is_not_utf8_is_replaced() {
    let key = String::from("k");
    let html = format!("[{}]", tag(&[b'a', 0xff, b'b'], &key));
    assert_eq!(decrypt_lanis_encoded_tags(&html, &key), "[a\u{fffd}b]");
}

#[test]
fn fragment_ends_at_the_first_closing_tag() {
    let key = String::from("k");
    let blob = encrypt_lanis_data(b"x", &key);
    let html = format!("<encoded>{}</encoded></encoded>", blob);
    assert_eq!(decrypt_lanis_encoded_tags(&html, &key), "x</encoded>");
    let html = format!("<encoded><encoded>{}</encoded>", blob);
    assert_eq!(decrypt_lanis_encoded_tags(&html, &key), "");
}

#[test]
fn fragment_does_not_span_lines() {
    let key = String::from("k");
    let blob = encrypt_lanis_data(b"x", &key);
    let html = format!("<encoded>\n{}</encoded>", blob);
    assert_eq!(decrypt_lanis_encoded_tags(&html, &key), html);
    let html = format!("<encoded>\n<encoded>{}</encoded>", blob);
    assert_eq!(decrypt_lanis_encoded_tags(&html, &key), "<encoded>\nx");
    let html = format!("<encoded>\r{}</encoded>", blob);
    assert_eq!(decrypt_lanis_encoded_tags(&html, &key), "");
}

#[test]
fn decoder_agrees_with_the_pattern() {
    let key = String::from("pattern key");
    let a = encrypt_lanis_data_with_salt(b"first", &key, &[1u8; 8]);
    let b = encrypt_lanis_data_with_salt("zw\u{f6}lf".as_bytes(), &key, &[2u8; 8]);
    let documents = [
        String::new(),
        String::from("plain"),
        format!("<encoded>{}</encoded>", a),
        format!("<encoded>{}</encoded><encoded>{}</encoded>", a, b),
        format!("x<encoded>{}</encoded>y<encoded>{}</encoded>z", b, a),
        format!("<encoded><encoded>{}</encoded>{}</encoded>", a, b),
        format!("<encoded>{}\n</encoded><encoded>{}</encoded>", a, b),
        format!("<encoded>{}</encoded\n><encoded>{}</encoded>", a, b),
        format!("<encoded<encoded>{}</encoded>", a),
        format!("<encoded>{}</encoded", a),
        format!("</encoded>{}<encoded>", a),
        format!("<encoded></encoded>{}<encoded>\u{20ac}</encoded>", a),
        format!("\n<encoded>{}</encoded>\n<encoded>\n</encoded>", a),
        format!("<encoded> {}</encoded>", a),
        format!("<encoded>{}</encoded><encoded>{}", a, b),
    ];
    for document in documents {
        assert_eq!(decrypt_lanis_encoded_tags(&document, &key), by_pattern(&document, &key));
    }
}

#[test]
fn find_fragment_gives_the_positions_of_both_tags() {
    let document = b"ab<encoded>xyz</encoded>cd<encoded></encoded>";
    assert_eq!(find_fragment(document, 0), Some((2, 14)));
    assert_eq!(find_fragment(document, 2), Some((2, 14)));
    assert_eq!(find_fragment(document, 3), Some((26, 35)));
    assert_eq!(find_fragment(document, 27), None);
    assert_eq!(find_fragment(document, document.len()), None);
    assert_eq!(find_fragment(b"<encoded>a\nb</encoded>", 0), None);
}

#[test]
fn decode_document_works_on_bytes() {
    let key = String::from("k");
    let blob = encrypt_lanis_data(b"plain", &key);
    let mut document = vec![0xffu8, 0xfe];
    document.extend_from_slice(b"<encoded>");
    document.extend_from_slice(blob.as_bytes());
    document.extend_from_slice(b"</encoded>");
    document.push(0x80);
    assert_eq!(decode_document(&document, b"k"), b"\xff\xfeplain\x80".to_vec());
}

#[test]
fn openings_without_end_are_scanned_once() {
    let key = String::from("k");
    let unclosed = "<encoded>".repeat(50_000);
    assert_eq!(decrypt_lanis_encoded_tags(&unclosed, &key), unclosed);
    let broken = "<encoded>\n".repeat(50_000);
    assert_eq!(decrypt_lanis_encoded_tags(&broken, &key), broken);
    let closed = format!("{}</encoded>tail", unclosed);
    assert_eq!(decrypt_lanis_encoded_tags(&closed, &key), "tail");
}
