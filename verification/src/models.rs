//! The data types of the backend: generation requests, generated images,
//! resources and their creation/update payloads, and the settings record.

use vstd::prelude::*;

verus! {

/// A request to generate `count` images of `width` x `height` pixels from
/// `prompt`, optionally guided by local reference image files.
#[derive(Debug, Clone, PartialEq, Eq)]
pub struct GeneratePayload {
    pub prompt: String,
    pub negative_prompt: Option<String>,
    pub width: u32,
    pub height: u32,
    pub count: u32,
    pub reference_images: Option<Vec<String>>,
}

/// Mathematical model of a [`GeneratePayload`].
pub struct PayloadModel {
    pub prompt: Seq<char>,
    pub negative_prompt: Option<Seq<char>>,
    pub width: u32,
    pub height: u32,
    pub count: u32,
    pub reference_images: Option<Seq<Seq<char>>>,
}

impl View for GeneratePayload {
    type V = PayloadModel;

    open spec fn view(&self) -> PayloadModel {
        PayloadModel {
            prompt: self.prompt@,
            negative_prompt: self.negative_prompt.deep_view(),
            width: self.width,
            height: self.height,
            count: self.count,
            reference_images: self.reference_images.deep_view(),
        }
    }
}

/// An image file found in (or just written to) the output directory.
#[derive(Debug, Clone, PartialEq, Eq)]
pub struct GeneratedImage {
    pub filename: String,
    pub path: String,
    pub created_at: u64,
}

/// Mathematical model of a [`GeneratedImage`].
pub struct GeneratedImageModel {
    pub filename: Seq<char>,
    pub path: Seq<char>,
    pub created_at: u64,
}

impl View for GeneratedImage {
    type V = GeneratedImageModel;

    open spec fn view(&self) -> GeneratedImageModel {
        GeneratedImageModel {
            filename: self.filename@,
            path: self.path@,
            created_at: self.created_at,
        }
    }
}

/// A stored, reusable bundle: a named prompt template plus the reference
/// images copied into the resource's own directory.
#[derive(Debug, Clone, PartialEq, Eq)]
pub struct Resource {
    pub id: String,
    pub name: String,
    pub description: Option<String>,
    pub prompt_template: String,
    pub images: Vec<String>,
    pub created_at: i64,
    pub updated_at: i64,
}

/// Mathematical model of a [`Resource`].
pub struct ResourceModel {
    pub id: Seq<char>,
    pub name: Seq<char>,
    pub description: Option<Seq<char>>,
    pub prompt_template: Seq<char>,
    pub images: Seq<Seq<char>>,
    pub created_at: i64,
    pub updated_at: i64,
}

impl View for Resource {
    type V = ResourceModel;

    open spec fn view(&self) -> ResourceModel {
        ResourceModel {
            id: self.id@,
            name: self.name@,
            description: self.description.deep_view(),
            prompt_template: self.prompt_template@,
            images: self.images.deep_view(),
            created_at: self.created_at,
            updated_at: self.updated_at,
        }
    }
}

/// A copy of a resource, field for field, with an equal model.
pub fn clone_resource(r: &Resource) -> (c: Resource)
    ensures
        c@ == r@,
{
    let c = Resource {
        id: r.id.clone(),
        name: r.name.clone(),
        description: match &r.description {
            Some(d) => Some(d.clone()),
            None => None,
        },
        prompt_template: r.prompt_template.clone(),
        images: crate::strutil::clone_strings(&r.images),
        created_at: r.created_at,
        updated_at: r.updated_at,
    };
    proof {
        assert(c@ =~~= r@);
    }
    c
}

/// What the user supplies to create a new [`Resource`].
#[derive(Debug, Clone, PartialEq, Eq)]
pub struct CreateResourcePayload {
    pub name: String,
    pub description: Option<String>,
    pub prompt: String,
    pub image_paths: Vec<String>,
}

/// Mathematical model of a [`CreateResourcePayload`].
pub struct CreatePayloadModel {
    pub name: Seq<char>,
    pub description: Option<Seq<char>>,
    pub prompt: Seq<char>,
    pub image_paths: Seq<Seq<char>>,
}

impl View for CreateResourcePayload {
    type V = CreatePayloadModel;

    open spec fn view(&self) -> CreatePayloadModel {
        CreatePayloadModel {
            name: self.name@,
            description: self.description.deep_view(),
            prompt: self.prompt@,
            image_paths: self.image_paths.deep_view(),
        }
    }
}

/// A partial patch of a [`Resource`]: absent fields are left unchanged.
#[derive(Debug, Clone, PartialEq, Eq)]
pub struct UpdateResourcePayload {
    pub id: String,
    pub name: Option<String>,
    pub description: Option<String>,
    pub prompt: Option<String>,
    pub images: Option<Vec<String>>,
}

/// Mathematical model of an [`UpdateResourcePayload`].
pub struct UpdatePayloadModel {
    pub id: Seq<char>,
    pub name: Option<Seq<char>>,
    pub description: Option<Seq<char>>,
    pub prompt: Option<Seq<char>>,
    pub images: Option<Seq<Seq<char>>>,
}

impl View for UpdateResourcePayload {
    type V = UpdatePayloadModel;

    open spec fn view(&self) -> UpdatePayloadModel {
        UpdatePayloadModel {
            id: self.id@,
            name: self.name.deep_view(),
            description: self.description.deep_view(),
            prompt: self.prompt.deep_view(),
            images: self.images.deep_view(),
        }
    }
}

/// The settings record surfaced to the user interface. Fields left as
/// `None` on save keep their previously persisted values.
#[derive(Debug, Clone, PartialEq, Eq)]
pub struct AppSettings {
    pub provider: String,
    pub doubao_api_key: Option<String>,
    pub zhipu_api_key: Option<String>,
    pub zhipu_watermark: Option<bool>,
    pub theme: Option<String>,
}

/// Mathematical model of an [`AppSettings`].
pub struct AppSettingsModel {
    pub provider: Seq<char>,
    pub doubao_api_key: Option<Seq<char>>,
    pub zhipu_api_key: Option<Seq<char>>,
    pub zhipu_watermark: Option<bool>,
    pub theme: Option<Seq<char>>,
}

impl View for AppSettings {
    type V = AppSettingsModel;

    open spec fn view(&self) -> AppSettingsModel {
        AppSettingsModel {
            provider: self.provider@,
            doubao_api_key: self.doubao_api_key.deep_view(),
            zhipu_api_key: self.zhipu_api_key.deep_view(),
            zhipu_watermark: self.zhipu_watermark,
            theme: self.theme.deep_view(),
        }
    }
}

} // verus!
