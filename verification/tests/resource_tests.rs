use imagegen::models::{CreateResourcePayload, Resource, UpdateResourcePayload};
use imagegen::resources::{
    begin_resource, create_resource, delete_resource, list_resources, plan_resource_copies,
    resource_dir, update_resource,
};

fn record(id: &str, name: &str) -> Resource {
    Resource {
        id: String::from(id),
        name: String::from(name),
        description: None,
        prompt_template: String::from("t"),
        images: vec![],
        created_at: 5,
        updated_at: 5,
    }
}

#[test]
fn begin_resource_names_the_private_directory() {
    let (id, dir) = begin_resource("/home/u/Documents");
    assert_eq!(id.len(), 36);
    assert_eq!(dir, format!("/home/u/Documents/ImageGen/Resources/{}", id));
}

#[test]
fn resource_dir_is_under_documents() {
    assert_eq!(
        resource_dir("/home/u/Documents", "abc"),
        "/home/u/Documents/ImageGen/Resources/abc"
    );
}

#[test]
fn copies_skip_missing_sources() {
    let sources = vec![
        (String::from("/pics/a.png"), true),
        (String::from("/pics/missing.png"), false),
        (String::from("/pics/b.jpg"), true),
    ];
    let plan = plan_resource_copies("/docs/ImageGen/Resources/id1", &sources);
    assert_eq!(plan.len(), 2);
    assert_eq!(plan[0].0, "/pics/a.png");
    assert_eq!(plan[0].1, "/docs/ImageGen/Resources/id1/a.png");
    assert_eq!(plan[1].0, "/pics/b.jpg");
    assert_eq!(plan[1].1, "/docs/ImageGen/Resources/id1/b.jpg");
}

#[test]
fn created_resource_owns_exactly_the_copied_images() {
    let mut list: Vec<Resource> = Vec::new();
    let payload = CreateResourcePayload {
        name: String::from("cats"),
        description: Some(String::from("cat prompts")),
        prompt: String::from("a cat, {style}"),
        image_paths: vec![
            String::from("/pics/a.png"),
            String::from("/pics/missing.png"),
            String::from("/pics/b.jpg"),
        ],
    };
    let images = vec![
        String::from("/docs/ImageGen/Resources/x/a.png"),
        String::from("/docs/ImageGen/Resources/x/b.jpg"),
    ];
    let r = create_resource(&mut list, &payload, images.clone(), String::from("x"));
    assert_eq!(r.id, "x");
    assert_eq!(r.name, "cats");
    assert_eq!(r.description, Some(String::from("cat prompts")));
    assert_eq!(r.prompt_template, "a cat, {style}");
    assert_eq!(r.images, images);
    assert_eq!(r.created_at, r.updated_at);
    assert_eq!(list.len(), 1);
    assert_eq!(list[0], r);
}

#[test]
fn listing_an_absent_store_is_empty() {
    assert_eq!(list_resources(None), Vec::<Resource>::new());
    let v = vec![record("a", "one")];
    assert_eq!(list_resources(Some(v.clone())), v);
}

#[test]
fn update_patches_present_fields_only() {
    let stored = vec![record("a", "one"), record("b", "two")];
    let patch = UpdateResourcePayload {
        id: String::from("b"),
        name: Some(String::from("renamed")),
        description: None,
        prompt: Some(String::from("new prompt")),
        images: None,
    };
    let (list, updated) = update_resource(Some(stored), &patch).unwrap();
    assert_eq!(updated.id, "b");
    assert_eq!(updated.name, "renamed");
    assert_eq!(updated.description, None);
    assert_eq!(updated.prompt_template, "new prompt");
    assert_eq!(updated.created_at, 5);
    assert_eq!(list.len(), 2);
    assert_eq!(list[0], record("a", "one"));
    assert_eq!(list[1], updated);
}

#[test]
fn update_unknown_id_is_not_found() {
    let stored = vec![record("a", "one")];
    let patch = UpdateResourcePayload {
        id: String::from("zzz"),
        name: None,
        description: None,
        prompt: None,
        images: None,
    };
    assert_eq!(
        update_resource(Some(stored), &patch),
        Err(String::from("Resource not found"))
    );
}

#[test]
fn update_without_a_store_fails() {
    let patch = UpdateResourcePayload {
        id: String::from("a"),
        name: None,
        description: None,
        prompt: None,
        images: None,
    };
    assert_eq!(
        update_resource(None, &patch),
        Err(String::from("No resources found"))
    );
}

#[test]
fn delete_removes_the_record_unconditionally() {
    let stored = vec![record("a", "one"), record("b", "two"), record("a", "dup")];
    let left = delete_resource(Some(stored), "a");
    assert_eq!(left.len(), 1);
    assert_eq!(left[0].id, "b");
    assert!(left.iter().all(|r| r.id != "a"));
}

#[test]
fn delete_on_absent_store_yields_empty_list() {
    assert_eq!(delete_resource(None, "a"), Vec::<Resource>::new());
}

#[test]
fn delete_keeps_other_records_in_order() {
    let stored = vec![record("a", "one"), record("b", "two"), record("c", "three")];
    let left = delete_resource(Some(stored), "b");
    assert_eq!(left.len(), 2);
    assert_eq!(left[0].id, "a");
    assert_eq!(left[1].id, "c");
}
