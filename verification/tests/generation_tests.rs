use imagegen::generate::{
    make_filename, plan_batch_files, prepare_generation, resolve_output_dir,
};
use imagegen::models::GeneratePayload;
use imagegen::response::{parse_vendor_images, ImageSource, VendorImageEntry, VendorResponse};
use imagegen::store::SettingsStore;
use imagegen::wire::{provider_from_name, Provider};

fn payload(prompt: &str) -> GeneratePayload {
    GeneratePayload {
        prompt: String::from(prompt),
        negative_prompt: None,
        width: 512,
        height: 512,
        count: 1,
        reference_images: None,
    }
}

fn url_entry(u: &str) -> VendorImageEntry {
    VendorImageEntry { url: Some(String::from(u)), b64_json: None }
}

fn b64_entry(t: &str) -> VendorImageEntry {
    VendorImageEntry { url: None, b64_json: Some(String::from(t)) }
}

#[test]
fn provider_names_select_adapters() {
    assert_eq!(provider_from_name("zhipu"), Provider::Zhipu);
    assert_eq!(provider_from_name("openai"), Provider::OpenAiCompat);
    assert_eq!(provider_from_name("doubao"), Provider::Doubao);
    assert_eq!(provider_from_name("something-else"), Provider::Doubao);
    assert_eq!(provider_from_name(""), Provider::Doubao);
}

#[test]
fn filenames_follow_the_pattern() {
    assert_eq!(make_filename("doubao", 1234, 0), "doubao_1234_0.png");
    assert_eq!(make_filename("zhipu", 99, 17), "zhipu_99_17.png");
}

#[test]
fn batch_of_three_has_distinct_indices_and_shared_prefix() {
    let plan = plan_batch_files("/out", "doubao", 777, 3);
    assert_eq!(plan.len(), 3);
    assert_eq!(plan[0].0, "doubao_777_0.png");
    assert_eq!(plan[1].0, "doubao_777_1.png");
    assert_eq!(plan[2].0, "doubao_777_2.png");
    assert_eq!(plan[0].1, "/out/doubao_777_0.png");
    assert!(plan.iter().all(|p| p.0.starts_with("doubao_777_")));
    assert_ne!(plan[0].1, plan[1].1);
    assert_ne!(plan[1].1, plan[2].1);
    assert_ne!(plan[0].1, plan[2].1);
}

#[test]
fn plan_length_matches_image_count() {
    for count in [0usize, 1, 2, 5] {
        let plan = plan_batch_files("/out", "openai", 5, count);
        assert_eq!(plan.len(), count);
    }
}

#[test]
fn absolute_output_dir_is_used_verbatim() {
    let mut store = SettingsStore::new();
    store.set_text("output_dir", "/tmp/pictures");
    assert_eq!(resolve_output_dir(&store, "/home/u/Documents"), "/tmp/pictures");
}

#[test]
fn relative_output_dir_resolves_under_documents() {
    let mut store = SettingsStore::new();
    store.set_text("output_dir", "My/Outputs");
    assert_eq!(
        resolve_output_dir(&store, "/home/u/Documents"),
        "/home/u/Documents/My/Outputs"
    );
}

#[test]
fn default_output_dir_when_unconfigured() {
    let store = SettingsStore::new();
    assert_eq!(
        resolve_output_dir(&store, "/home/u/Documents"),
        "/home/u/Documents/ImageGen/Outputs"
    );
}

#[test]
fn url_response_yields_urls_in_order() {
    let resp = VendorResponse {
        data: Some(vec![url_entry("http://a/1"), url_entry("http://a/2")]),
    };
    let r = parse_vendor_images(Provider::Doubao, &resp).unwrap();
    assert_eq!(
        r,
        vec![
            ImageSource::Url(String::from("http://a/1")),
            ImageSource::Url(String::from("http://a/2")),
        ]
    );
}

#[test]
fn entries_without_url_are_skipped() {
    let resp = VendorResponse {
        data: Some(vec![
            url_entry("http://a/1"),
            VendorImageEntry { url: None, b64_json: None },
            url_entry("http://a/3"),
        ]),
    };
    let r = parse_vendor_images(Provider::Zhipu, &resp).unwrap();
    assert_eq!(r.len(), 2);
}

#[test]
fn missing_data_is_a_no_data_error() {
    let resp = VendorResponse { data: None };
    assert_eq!(
        parse_vendor_images(Provider::Doubao, &resp),
        Err(String::from("No data in Doubao response"))
    );
}

#[test]
fn empty_data_is_a_no_data_error() {
    let resp = VendorResponse { data: Some(vec![]) };
    assert_eq!(
        parse_vendor_images(Provider::Zhipu, &resp),
        Err(String::from("No data in Zhipu response"))
    );
}

#[test]
fn b64_response_decodes_inline_payloads() {
    let resp = VendorResponse { data: Some(vec![b64_entry("AQID")]) };
    let r = parse_vendor_images(Provider::OpenAiCompat, &resp).unwrap();
    assert_eq!(r, vec![ImageSource::Bytes(vec![1u8, 2, 3])]);
}

#[test]
fn invalid_b64_payload_is_an_error() {
    let resp = VendorResponse { data: Some(vec![b64_entry("!!not-base64!!")]) };
    assert_eq!(
        parse_vendor_images(Provider::OpenAiCompat, &resp),
        Err(String::from("Invalid image data in OpenAI response"))
    );
}

#[test]
fn prepare_generation_selects_configured_provider() {
    let mut store = SettingsStore::new();
    store.set_text("provider", "zhipu");
    store.set_text("zhipu_api_key", "zk");
    let plan = prepare_generation(&store, "/home/u/Documents", &payload("p"), &vec![]).unwrap();
    assert_eq!(plan.provider, Provider::Zhipu);
    assert_eq!(plan.output_dir, "/home/u/Documents/ImageGen/Outputs");
    assert_eq!(
        plan.request.endpoint,
        "https://open.bigmodel.cn/api/paas/v4/images/generations"
    );
}

#[test]
fn prepare_generation_unknown_provider_falls_back_to_doubao() {
    let mut store = SettingsStore::new();
    store.set_text("provider", "no-such-vendor");
    store.set_text("doubao_api_key", "dk");
    let plan = prepare_generation(&store, "/d", &payload("p"), &vec![]).unwrap();
    assert_eq!(plan.provider, Provider::Doubao);
}

#[test]
fn prepare_generation_surfaces_missing_credential() {
    let store = SettingsStore::new();
    let r = prepare_generation(&store, "/d", &payload("p"), &vec![]);
    assert_eq!(
        r,
        Err(String::from(
            "Doubao API Token not found. Please configure it in Settings."
        ))
    );
}
