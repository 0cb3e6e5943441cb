use imagegen::models::GeneratePayload;
use imagegen::store::SettingsStore;
use imagegen::wire::{
    build_doubao_request, build_openai_request, build_zhipu_request, doubao_request_body,
    get_mime_type, image_to_base64_uri, openai_request_body, zhipu_request_body, RefImage,
};

fn payload(prompt: &str, width: u32, height: u32, count: u32) -> GeneratePayload {
    GeneratePayload {
        prompt: String::from(prompt),
        negative_prompt: None,
        width,
        height,
        count,
        reference_images: None,
    }
}

#[test]
fn mime_types_by_extension() {
    assert_eq!(get_mime_type("a.jpg"), Ok(String::from("image/jpeg")));
    assert_eq!(get_mime_type("a.jpeg"), Ok(String::from("image/jpeg")));
    assert_eq!(get_mime_type("dir/b.png"), Ok(String::from("image/png")));
    assert_eq!(get_mime_type("b.webp"), Ok(String::from("image/webp")));
    assert_eq!(get_mime_type("b.gif"), Ok(String::from("image/gif")));
    assert_eq!(get_mime_type("c.JPG"), Ok(String::from("image/jpeg")));
    assert_eq!(
        get_mime_type("c.bmp"),
        Err(String::from("Unsupported file extension: bmp"))
    );
    assert_eq!(get_mime_type("noext"), Err(String::from("File has no extension")));
    assert_eq!(get_mime_type("dir.d/noext"), Err(String::from("File has no extension")));
}

#[test]
fn data_uri_for_small_image() {
    let bytes = vec![1u8, 2, 3];
    let uri = image_to_base64_uri("x.png", Some(&bytes)).unwrap();
    assert_eq!(uri, "data:image/png;base64,AQID");
}

#[test]
fn missing_reference_image_is_reported() {
    let r = image_to_base64_uri("gone.png", None);
    assert_eq!(r, Err(String::from("Image file not found: gone.png")));
}

#[test]
fn oversized_reference_image_is_rejected() {
    let bytes = vec![0u8; 10 * 1024 * 1024 + 1];
    let r = image_to_base64_uri("big.png", Some(&bytes));
    assert_eq!(
        r,
        Err(String::from("Image too large: 10485761 bytes (max 10485760)"))
    );
}

#[test]
fn reference_image_at_the_limit_is_accepted() {
    let bytes = vec![0u8; 10 * 1024 * 1024];
    let r = image_to_base64_uri("big.png", Some(&bytes)).unwrap();
    assert!(r.starts_with("data:image/png;base64,"));
}

#[test]
fn doubao_body_without_references() {
    let body = doubao_request_body(&payload("a cat", 1024, 768, 2), &vec![]);
    assert_eq!(
        body,
        "{\"model\":\"doubao-seedream-4-5-251128\",\"prompt\":\"a cat\",\
         \"sequential_image_generation\":\"auto\",\"response_format\":\"url\",\
         \"size\":\"1024x768\",\"stream\":false,\"watermark\":false}"
    );
}

#[test]
fn doubao_body_single_count_disables_sequential() {
    let body = doubao_request_body(&payload("p", 512, 512, 1), &vec![]);
    assert!(body.contains("\"sequential_image_generation\":\"disabled\""));
}

#[test]
fn doubao_body_escapes_prompt() {
    let body = doubao_request_body(&payload("say \"hi\"\n", 512, 512, 1), &vec![]);
    assert!(body.contains("\"prompt\":\"say \\\"hi\\\"\\n\""));
}

#[test]
fn doubao_body_single_reference_is_scalar() {
    let uris = vec![String::from("data:image/png;base64,AQID")];
    let body = doubao_request_body(&payload("p", 512, 512, 1), &uris);
    assert!(body.contains(",\"image\":\"data:image/png;base64,AQID\"}"));
    assert!(!body.contains("\"image\":["));
}

#[test]
fn doubao_body_two_references_are_an_array() {
    let uris = vec![String::from("data:a"), String::from("data:b")];
    let body = doubao_request_body(&payload("p", 512, 512, 1), &uris);
    assert!(body.contains(",\"image\":[\"data:a\",\"data:b\"]}"));
}

#[test]
fn zhipu_body_shape() {
    let body = zhipu_request_body(&payload("p", 512, 640, 1), true);
    assert_eq!(
        body,
        "{\"model\":\"glm-image\",\"prompt\":\"p\",\"size\":\"512x640\",\
         \"watermark_enabled\":true}"
    );
}

#[test]
fn openai_body_honours_count() {
    let body = openai_request_body(&payload("p", 512, 512, 3), "gpt-image-1");
    assert_eq!(
        body,
        "{\"model\":\"gpt-image-1\",\"prompt\":\"p\",\"n\":3,\"size\":\"512x512\",\
         \"response_format\":\"b64_json\"}"
    );
}

#[test]
fn doubao_request_requires_credential() {
    let store = SettingsStore::new();
    let r = build_doubao_request(&store, &payload("p", 512, 512, 1), &vec![]);
    assert_eq!(
        r,
        Err(String::from(
            "Doubao API Token not found. Please configure it in Settings."
        ))
    );
}

#[test]
fn doubao_request_carries_credential_and_endpoint() {
    let mut store = SettingsStore::new();
    store.set_text("doubao_api_key", "dk-test-token");
    let w = build_doubao_request(&store, &payload("p", 512, 512, 1), &vec![]).unwrap();
    assert_eq!(w.api_key, "dk-test-token");
    assert_eq!(
        w.endpoint,
        "https://ark.cn-beijing.volces.com/api/v3/images/generations"
    );
}

#[test]
fn doubao_request_rejects_bad_reference_before_network() {
    let mut store = SettingsStore::new();
    store.set_text("doubao_api_key", "k");
    let mut p = payload("p", 512, 512, 1);
    p.reference_images = Some(vec![String::from("big.png")]);
    let refs = vec![RefImage {
        path: String::from("big.png"),
        bytes: Some(vec![0u8; 10 * 1024 * 1024 + 1]),
    }];
    let r = build_doubao_request(&store, &p, &refs);
    assert_eq!(
        r,
        Err(String::from("Image too large: 10485761 bytes (max 10485760)"))
    );
}

#[test]
fn zhipu_request_requires_credential() {
    let store = SettingsStore::new();
    let r = build_zhipu_request(&store, &payload("p", 512, 512, 1));
    assert_eq!(
        r,
        Err(String::from(
            "Zhipu API Token not found. Please configure it in Settings."
        ))
    );
}

#[test]
fn zhipu_watermark_defaults_on_and_follows_setting() {
    let mut store = SettingsStore::new();
    store.set_text("zhipu_api_key", "zk");
    let w = build_zhipu_request(&store, &payload("p", 512, 512, 1)).unwrap();
    assert!(w.body.contains("\"watermark_enabled\":true"));
    store.set_flag("zhipu_watermark", false);
    let w2 = build_zhipu_request(&store, &payload("p", 512, 512, 1)).unwrap();
    assert!(w2.body.contains("\"watermark_enabled\":false"));
}

#[test]
fn openai_request_falls_back_to_legacy_key() {
    let mut store = SettingsStore::new();
    store.set_text("api_key", "legacy");
    let w = build_openai_request(&store, &payload("p", 512, 512, 1)).unwrap();
    assert_eq!(w.api_key, "legacy");
    assert_eq!(w.endpoint, "https://api.openai.com/v1/images/generations");
    store.set_text("openai_api_key", "primary");
    let w2 = build_openai_request(&store, &payload("p", 512, 512, 1)).unwrap();
    assert_eq!(w2.api_key, "primary");
}

#[test]
fn openai_request_requires_some_credential() {
    let store = SettingsStore::new();
    let r = build_openai_request(&store, &payload("p", 512, 512, 1));
    assert_eq!(
        r,
        Err(String::from(
            "OpenAI API Token not found. Please configure it in Settings."
        ))
    );
}
