//! The request side of the provider adapters: which provider a configured
//! name selects, the credential lookup for each vendor, the reference
//! image embedding, and the exact JSON body each vendor is sent.

use vstd::prelude::*;

use crate::jsontext::{json_escape, json_escaped};
use crate::models::{GeneratePayload, PayloadModel};
use crate::outside::{b64_of, base64_encode};
use crate::settings::{flag_at, text_at};
use crate::store::SettingsStore;
use crate::strutil::{
    dec_rep, eq_ignore_ascii_case, eq_ignore_case, extension, extension_of, file_name,
    spec_file_name, str_eq, u64_to_dec,
};

verus! {

/// The image-generation vendors the backend can talk to.
#[derive(Clone, Copy, Debug, PartialEq, Eq, Structural)]
pub enum Provider {
    Doubao,
    Zhipu,
    OpenAiCompat,
}

/// The provider a configured name selects: unrecognized or absent names
/// fall back to Doubao, never to an error.
pub open spec fn spec_provider_of(name: Seq<char>) -> Provider {
    if name == "zhipu"@ {
        Provider::Zhipu
    } else if name == "openai"@ {
        Provider::OpenAiCompat
    } else {
        Provider::Doubao
    }
}

/// Select the provider for a configured name.
pub fn provider_from_name(name: &str) -> (p: Provider)
    ensures
        p == spec_provider_of(name@),
{
    if str_eq(name, "zhipu") {
        Provider::Zhipu
    } else if str_eq(name, "openai") {
        Provider::OpenAiCompat
    } else {
        Provider::Doubao
    }
}

/// The tag a provider stamps into generated filenames.
pub open spec fn spec_provider_tag(p: Provider) -> Seq<char> {
    match p {
        Provider::Doubao => "doubao"@,
        Provider::Zhipu => "zhipu"@,
        Provider::OpenAiCompat => "openai"@,
    }
}

/// The filename tag of a provider.
pub fn provider_tag(p: Provider) -> (r: &'static str)
    ensures
        r@ == spec_provider_tag(p),
{
    match p {
        Provider::Doubao => "doubao",
        Provider::Zhipu => "zhipu",
        Provider::OpenAiCompat => "openai",
    }
}

/// The vendor name used in error messages.
pub open spec fn spec_vendor_name(p: Provider) -> Seq<char> {
    match p {
        Provider::Doubao => "Doubao"@,
        Provider::Zhipu => "Zhipu"@,
        Provider::OpenAiCompat => "OpenAI"@,
    }
}

/// The vendor name of a provider, for error messages.
pub fn vendor_name(p: Provider) -> (r: &'static str)
    ensures
        r@ == spec_vendor_name(p),
{
    match p {
        Provider::Doubao => "Doubao",
        Provider::Zhipu => "Zhipu",
        Provider::OpenAiCompat => "OpenAI",
    }
}

/// A generation request ready to be posted: where, with which bearer
/// token, and with which JSON body.
#[derive(Debug, Clone, PartialEq, Eq)]
pub struct WireRequest {
    pub endpoint: String,
    pub api_key: String,
    pub body: String,
}

/// Mathematical model of a [`WireRequest`].
pub struct WireRequestModel {
    pub endpoint: Seq<char>,
    pub api_key: Seq<char>,
    pub body: Seq<char>,
}

impl View for WireRequest {
    type V = WireRequestModel;

    open spec fn view(&self) -> WireRequestModel {
        WireRequestModel { endpoint: self.endpoint@, api_key: self.api_key@, body: self.body@ }
    }
}

/// The MIME type a reference image's extension announces, matched without
/// regard to ASCII case.
pub open spec fn mime_for(ext: Seq<char>) -> Option<Seq<char>> {
    if eq_ignore_case(ext, "jpg"@) || eq_ignore_case(ext, "jpeg"@) {
        Some("image/jpeg"@)
    } else if eq_ignore_case(ext, "png"@) {
        Some("image/png"@)
    } else if eq_ignore_case(ext, "webp"@) {
        Some("image/webp"@)
    } else if eq_ignore_case(ext, "gif"@) {
        Some("image/gif"@)
    } else {
        None
    }
}

/// The MIME type for the extension of `path`'s file name, or the error
/// naming the reason: no extension, or one no adapter supports.
pub fn get_mime_type(path: &str) -> (r: Result<String, String>)
    ensures
        ({
            let ext = extension_of(spec_file_name(path@));
            match r {
                Ok(m) => ext is Some && mime_for(ext->Some_0) == Some(m@),
                Err(e) => (ext is None && e@ == "File has no extension"@) || (ext is Some
                    && mime_for(ext->Some_0) is None && e@ == "Unsupported file extension: "@
                    + ext->Some_0),
            }
        }),
{
    let name = file_name(path);
    match extension(name.as_str()) {
        None => Err(String::from_str("File has no extension")),
        Some(ext) => {
            if eq_ignore_ascii_case(ext.as_str(), "jpg") || eq_ignore_ascii_case(
                ext.as_str(),
                "jpeg",
            ) {
                Ok(String::from_str("image/jpeg"))
            } else if eq_ignore_ascii_case(ext.as_str(), "png") {
                Ok(String::from_str("image/png"))
            } else if eq_ignore_ascii_case(ext.as_str(), "webp") {
                Ok(String::from_str("image/webp"))
            } else if eq_ignore_ascii_case(ext.as_str(), "gif") {
                Ok(String::from_str("image/gif"))
            } else {
                let mut e = String::from_str("Unsupported file extension: ");
                e.append(ext.as_str());
                Err(e)
            }
        },
    }
}

/// The largest reference image accepted, in bytes: 10 MiB.
pub const MAX_REFERENCE_IMAGE_BYTES: usize = 10485760;

/// The data URI embedding a reference image of the given MIME type.
pub open spec fn spec_data_uri(mime: Seq<char>, bytes: Seq<u8>) -> Seq<char> {
    "data:"@ + mime + ";base64,"@ + b64_of(bytes)
}

/// What embedding one reference image yields: the data URI, or the error
/// naming the path and the reason. A missing file, an oversized file and
/// an unrecognized extension each keep their own message.
pub open spec fn spec_image_uri(path: Seq<char>, bytes: Option<Seq<u8>>) -> Result<
    Seq<char>,
    Seq<char>,
> {
    match bytes {
        None => Err("Image file not found: "@ + path),
        Some(b) => if b.len() > MAX_REFERENCE_IMAGE_BYTES as nat {
            Err(
                "Image too large: "@ + dec_rep(b.len()) + " bytes (max 10485760)"@,
            )
        } else {
            match extension_of(spec_file_name(path)) {
                None => Err("File has no extension"@),
                Some(ext) => match mime_for(ext) {
                    None => Err("Unsupported file extension: "@ + ext),
                    Some(m) => Ok(spec_data_uri(m, b)),
                },
            }
        },
    }
}

/// Embed one reference image as a data URI. `bytes` is the file's
/// contents, or `None` where the file does not exist; the checks run, and
/// any failure is reported, before any network call is issued.
pub fn image_to_base64_uri(path: &str, bytes: Option<&Vec<u8>>) -> (r: Result<String, String>)
    ensures
        ({
            let b = match bytes {
                Some(v) => Some(v@),
                None => None::<Seq<u8>>,
            };
            match r {
                Ok(u) => spec_image_uri(path@, b) == Ok::<Seq<char>, Seq<char>>(u@),
                Err(e) => spec_image_uri(path@, b) == Err::<Seq<char>, Seq<char>>(e@),
            }
        }),
{
    let v = match bytes {
        Some(v) => v,
        None => {
            let mut e = String::from_str("Image file not found: ");
            e.append(path);
            return Err(e);
        },
    };
    if v.len() > MAX_REFERENCE_IMAGE_BYTES {
        let mut e = String::from_str("Image too large: ");
        e.append(u64_to_dec(v.len() as u64).as_str());
        e.append(" bytes (max 10485760)");
        return Err(e);
    }
    let mime = match get_mime_type(path) {
        Ok(m) => m,
        Err(e) => {
            return Err(e);
        },
    };
    let b64 = base64_encode(v);
    let mut s = String::from_str("data:");
    s.append(mime.as_str());
    s.append(";base64,");
    s.append(b64.as_str());
    Ok(s)
}

/// A reference image as the surrounding binary hands it in: the path the
/// user gave, and the file's bytes, or `None` where the file is missing.
#[derive(Debug, Clone, PartialEq, Eq)]
pub struct RefImage {
    pub path: String,
    pub bytes: Option<Vec<u8>>,
}

/// Mathematical model of a [`RefImage`].
pub struct RefImageModel {
    pub path: Seq<char>,
    pub bytes: Option<Seq<u8>>,
}

impl View for RefImage {
    type V = RefImageModel;

    open spec fn view(&self) -> RefImageModel {
        RefImageModel { path: self.path@, bytes: self.bytes.deep_view() }
    }
}

/// The models of a sequence of reference images.
pub open spec fn ref_models(s: Seq<RefImage>) -> Seq<RefImageModel> {
    Seq::new(s.len(), |i: int| s[i]@)
}

/// The handed-in reference images are exactly those the payload lists, in
/// the payload's order.
pub open spec fn ref_images_match(p: PayloadModel, refs: Seq<RefImageModel>) -> bool {
    match p.reference_images {
        Some(ps) => refs.len() == ps.len() && forall|i: int|
            0 <= i < refs.len() ==> refs[i].path == ps[i],
        None => refs.len() == 0,
    }
}

/// What embedding a list of reference images yields: the data URIs in
/// order, or the first failure.
pub open spec fn spec_image_uris(refs: Seq<RefImageModel>) -> Result<Seq<Seq<char>>, Seq<char>>
    decreases refs.len(),
{
    if refs.len() == 0 {
        Ok(seq![])
    } else {
        match spec_image_uri(refs.first().path, refs.first().bytes) {
            Err(e) => Err(e),
            Ok(u) => match spec_image_uris(refs.drop_first()) {
                Err(e) => Err(e),
                Ok(us) => Ok(seq![u] + us),
            },
        }
    }
}

proof fn lemma_image_uris_snoc(refs: Seq<RefImageModel>, x: RefImageModel)
    ensures
        spec_image_uris(refs.push(x)) == (match spec_image_uris(refs) {
            Err(e) => Err(e),
            Ok(us) => match spec_image_uri(x.path, x.bytes) {
                Err(e) => Err::<Seq<Seq<char>>, Seq<char>>(e),
                Ok(u) => Ok(us.push(u)),
            },
        }),
    decreases refs.len(),
{
    let full = refs.push(x);
    if refs.len() == 0 {
        assert(full.len() == 1);
        assert(full.first() == x);
        assert(full.drop_first() =~= Seq::<RefImageModel>::empty());
        match spec_image_uri(x.path, x.bytes) {
            Err(e) => {
                assert(spec_image_uris(full) == Err::<Seq<Seq<char>>, Seq<char>>(e));
            },
            Ok(u) => {
                assert(spec_image_uris(full.drop_first()) == Ok::<Seq<Seq<char>>, Seq<char>>(
                    seq![],
                ));
                assert(seq![u] + Seq::<Seq<char>>::empty() =~= Seq::<Seq<char>>::empty().push(u));
                assert(spec_image_uris(refs) == Ok::<Seq<Seq<char>>, Seq<char>>(seq![]));
                assert(Seq::<Seq<char>>::empty() =~= Seq::<Seq<char>>::empty());
            },
        }
    } else {
        assert(full.len() == refs.len() + 1);
        assert(full.first() == refs.first());
        assert(full.drop_first() =~= refs.drop_first().push(x));
        lemma_image_uris_snoc(refs.drop_first(), x);
        match spec_image_uri(refs.first().path, refs.first().bytes) {
            Err(_) => {
            },
            Ok(u) => {
                match spec_image_uris(refs.drop_first()) {
                    Err(_) => {
                    },
                    Ok(us) => {
                        assert(spec_image_uris(refs) == Ok::<Seq<Seq<char>>, Seq<char>>(
                            seq![u] + us,
                        ));
                        match spec_image_uri(x.path, x.bytes) {
                            Err(_) => {
                            },
                            Ok(xu) => {
                                assert(seq![u] + us.push(xu) =~= (seq![u] + us).push(xu));
                            },
                        }
                    },
                }
            },
        }
    }
}

proof fn lemma_image_uris_err_prefix(refs: Seq<RefImageModel>, k: int)
    requires
        0 <= k <= refs.len(),
        spec_image_uris(refs.subrange(0, k)) is Err,
    ensures
        spec_image_uris(refs) == spec_image_uris(refs.subrange(0, k)),
    decreases refs.len() - k,
{
    if k == refs.len() {
        assert(refs.subrange(0, k) =~= refs);
    } else {
        assert(refs.subrange(0, k + 1) =~= refs.subrange(0, k).push(refs[k]));
        lemma_image_uris_snoc(refs.subrange(0, k), refs[k]);
        lemma_image_uris_err_prefix(refs, k + 1);
    }
}

/// One JSON string literal denoting `u`.
pub open spec fn quoted(u: Seq<char>) -> Seq<char> {
    "\""@ + json_escaped(u) + "\""@
}

/// The elements of a JSON array of string literals, comma-separated.
pub open spec fn uris_array(uris: Seq<Seq<char>>) -> Seq<char>
    decreases uris.len(),
{
    if uris.len() == 0 {
        seq![]
    } else if uris.len() == 1 {
        quoted(uris[0])
    } else {
        uris_array(uris.drop_last()) + ","@ + quoted(uris.last())
    }
}

/// The `image` field of a Doubao request body: absent without reference
/// images, a scalar for exactly one, an array for several. The scalar and
/// array shapes are not interchangeable.
pub open spec fn image_field(uris: Seq<Seq<char>>) -> Seq<char> {
    if uris.len() == 0 {
        seq![]
    } else if uris.len() == 1 {
        ",\"image\":"@ + quoted(uris[0])
    } else {
        ",\"image\":["@ + uris_array(uris) + "]"@
    }
}

fn image_field_text(uris: &Vec<String>) -> (r: String)
    ensures
        r@ == image_field(uris.deep_view()),
{
    let ghost dv = uris.deep_view();
    let n = uris.len();
    if n == 0 {
        let r = String::new();
        proof {
            assert(r@ =~= image_field(dv));
        }
        r
    } else if n == 1 {
        let mut s = String::from_str(",\"image\":");
        s.append("\"");
        s.append(json_escape(uris[0].as_str()).as_str());
        s.append("\"");
        proof {
            assert(dv[0] == uris@[0]@);
            assert(s@ =~= image_field(dv));
        }
        s
    } else {
        let mut s = String::from_str(",\"image\":[");
        let mut i: usize = 0;
        while i < n
            invariant
                n == uris@.len(),
                n >= 2,
                dv == uris.deep_view(),
                i <= n,
                s@ == ",\"image\":["@ + uris_array(dv.subrange(0, i as int)),
            decreases n - i,
        {
            if i > 0 {
                s.append(",");
            }
            s.append("\"");
            s.append(json_escape(uris[i].as_str()).as_str());
            s.append("\"");
            proof {
                assert(dv[i as int] == uris@[i as int]@);
                assert(dv.subrange(0, i + 1).drop_last() =~= dv.subrange(0, i as int));
                assert(dv.subrange(0, i + 1).last() == dv[i as int]);
                assert(s@ =~= ",\"image\":["@ + uris_array(dv.subrange(0, i + 1)));
            }
            i += 1;
        }
        s.append("]");
        proof {
            assert(dv.subrange(0, n as int) =~= dv);
            assert(s@ =~= image_field(dv));
        }
        s
    }
}

/// The exact JSON body posted to Doubao.
pub open spec fn spec_doubao_body(p: PayloadModel, uris: Seq<Seq<char>>) -> Seq<char> {
    "{\"model\":\"doubao-seedream-4-5-251128\",\"prompt\":\""@ + json_escaped(p.prompt)
        + "\",\"sequential_image_generation\":\""@ + (if p.count > 1 {
        "auto"@
    } else {
        "disabled"@
    }) + "\",\"response_format\":\"url\",\"size\":\""@ + dec_rep(p.width as nat) + "x"@ + dec_rep(
        p.height as nat,
    ) + "\",\"stream\":false,\"watermark\":false"@ + image_field(uris) + "}"@
}

/// Build the Doubao request body: sequential generation is switched on
/// only when more than one image is asked for, and the watermark is off.
pub fn doubao_request_body(payload: &GeneratePayload, image_uris: &Vec<String>) -> (r: String)
    ensures
        r@ == spec_doubao_body(payload@, image_uris.deep_view()),
{
    let mut s = String::from_str("{\"model\":\"doubao-seedream-4-5-251128\",\"prompt\":\"");
    s.append(json_escape(payload.prompt.as_str()).as_str());
    s.append("\",\"sequential_image_generation\":\"");
    if payload.count > 1 {
        s.append("auto");
    } else {
        s.append("disabled");
    }
    s.append("\",\"response_format\":\"url\",\"size\":\"");
    s.append(u64_to_dec(payload.width as u64).as_str());
    s.append("x");
    s.append(u64_to_dec(payload.height as u64).as_str());
    s.append("\",\"stream\":false,\"watermark\":false");
    s.append(image_field_text(image_uris).as_str());
    s.append("}");
    proof {
        assert(s@ =~= spec_doubao_body(payload@, image_uris.deep_view()));
    }
    s
}

/// The exact JSON body posted to Zhipu: text-to-image only, with the
/// configured watermark preference.
pub open spec fn spec_zhipu_body(p: PayloadModel, watermark: bool) -> Seq<char> {
    "{\"model\":\"glm-image\",\"prompt\":\""@ + json_escaped(p.prompt) + "\",\"size\":\""@
        + dec_rep(p.width as nat) + "x"@ + dec_rep(p.height as nat)
        + "\",\"watermark_enabled\":"@ + (if watermark {
        "true"@
    } else {
        "false"@
    }) + "}"@
}

/// Build the Zhipu request body.
pub fn zhipu_request_body(payload: &GeneratePayload, watermark: bool) -> (r: String)
    ensures
        r@ == spec_zhipu_body(payload@, watermark),
{
    let mut s = String::from_str("{\"model\":\"glm-image\",\"prompt\":\"");
    s.append(json_escape(payload.prompt.as_str()).as_str());
    s.append("\",\"size\":\"");
    s.append(u64_to_dec(payload.width as u64).as_str());
    s.append("x");
    s.append(u64_to_dec(payload.height as u64).as_str());
    s.append("\",\"watermark_enabled\":");
    if watermark {
        s.append("true");
    } else {
        s.append("false");
    }
    s.append("}");
    proof {
        assert(s@ =~= spec_zhipu_body(payload@, watermark));
    }
    s
}

/// The exact JSON body posted to an OpenAI-compatible endpoint: the
/// requested count is honoured directly, and the response is asked for as
/// inline base64 payloads.
pub open spec fn spec_openai_body(p: PayloadModel, model: Seq<char>) -> Seq<char> {
    "{\"model\":\""@ + json_escaped(model) + "\",\"prompt\":\""@ + json_escaped(p.prompt)
        + "\",\"n\":"@ + dec_rep(p.count as nat) + ",\"size\":\""@ + dec_rep(p.width as nat)
        + "x"@ + dec_rep(p.height as nat) + "\",\"response_format\":\"b64_json\"}"@
}

/// Build the OpenAI-compatible request body.
pub fn openai_request_body(payload: &GeneratePayload, model: &str) -> (r: String)
    ensures
        r@ == spec_openai_body(payload@, model@),
{
    let mut s = String::from_str("{\"model\":\"");
    s.append(json_escape(model).as_str());
    s.append("\",\"prompt\":\"");
    s.append(json_escape(payload.prompt.as_str()).as_str());
    s.append("\",\"n\":");
    s.append(u64_to_dec(payload.count as u64).as_str());
    s.append(",\"size\":\"");
    s.append(u64_to_dec(payload.width as u64).as_str());
    s.append("x");
    s.append(u64_to_dec(payload.height as u64).as_str());
    s.append("\",\"response_format\":\"b64_json\"}");
    proof {
        assert(s@ =~= spec_openai_body(payload@, model@));
    }
    s
}

/// Doubao's fixed generation endpoint.
pub open spec fn doubao_endpoint() -> Seq<char> {
    "https://ark.cn-beijing.volces.com/api/v3/images/generations"@
}

/// Zhipu's fixed generation endpoint.
pub open spec fn zhipu_endpoint() -> Seq<char> {
    "https://open.bigmodel.cn/api/paas/v4/images/generations"@
}

/// The OpenAI generation endpoint assumed when none is configured.
pub open spec fn default_openai_endpoint() -> Seq<char> {
    "https://api.openai.com/v1/images/generations"@
}

/// The OpenAI model assumed when none is configured.
pub open spec fn default_openai_model() -> Seq<char> {
    "gpt-image-1"@
}

/// The error reported when Doubao is selected but not configured.
pub open spec fn doubao_key_missing() -> Seq<char> {
    "Doubao API Token not found. Please configure it in Settings."@
}

/// The error reported when Zhipu is selected but not configured.
pub open spec fn zhipu_key_missing() -> Seq<char> {
    "Zhipu API Token not found. Please configure it in Settings."@
}

/// The error reported when an OpenAI-compatible vendor is selected but
/// not configured.
pub open spec fn openai_key_missing() -> Seq<char> {
    "OpenAI API Token not found. Please configure it in Settings."@
}

/// What building the Doubao request yields: the credential is looked up
/// first, then every reference image is embedded; the first failure wins.
pub open spec fn spec_doubao_request(
    m: Map<Seq<char>, crate::store::ValueModel>,
    p: PayloadModel,
    refs: Seq<RefImageModel>,
) -> Result<WireRequestModel, Seq<char>> {
    match text_at(m, "doubao_api_key"@) {
        None => Err(doubao_key_missing()),
        Some(key) => match spec_image_uris(refs) {
            Err(e) => Err(e),
            Ok(uris) => Ok(
                WireRequestModel {
                    endpoint: doubao_endpoint(),
                    api_key: key,
                    body: spec_doubao_body(p, uris),
                },
            ),
        },
    }
}

/// Build the full Doubao request: fails without a configured credential,
/// or with the first reference image that cannot be embedded, before any
/// network call.
pub fn build_doubao_request(
    store: &SettingsStore,
    payload: &GeneratePayload,
    ref_images: &Vec<RefImage>,
) -> (r: Result<WireRequest, String>)
    requires
        store.wf(),
        ref_images_match(payload@, ref_models(ref_images@)),
    ensures
        match r {
            Ok(w) => spec_doubao_request(store@, payload@, ref_models(ref_images@)) == Ok::<
                WireRequestModel,
                Seq<char>,
            >(w@),
            Err(e) => spec_doubao_request(store@, payload@, ref_models(ref_images@)) == Err::<
                WireRequestModel,
                Seq<char>,
            >(e@),
        },
{
    let api_key = match store.get_text("doubao_api_key") {
        Some(k) => k,
        None => {
            return Err(String::from_str("Doubao API Token not found. Please configure it in Settings."));
        },
    };
    let ghost refs = ref_models(ref_images@);
    let mut uris: Vec<String> = Vec::new();
    let n = ref_images.len();
    let mut i: usize = 0;
    proof {
        assert(refs.subrange(0, 0) =~= Seq::<RefImageModel>::empty());
        assert(uris.deep_view() =~= Seq::<Seq<char>>::empty());
        assert(spec_image_uris(refs.subrange(0, 0)) == Ok::<Seq<Seq<char>>, Seq<char>>(
            uris.deep_view(),
        ));
    }
    while i < n
        invariant
            n == ref_images@.len(),
            refs == ref_models(ref_images@),
            i <= n,
            text_at(store@, "doubao_api_key"@) == Some(api_key@),
            spec_image_uris(refs.subrange(0, i as int)) == Ok::<Seq<Seq<char>>, Seq<char>>(
                uris.deep_view(),
            ),
        decreases n - i,
    {
        let entry = &ref_images[i];
        proof {
            assert(refs[i as int] == ref_images@[i as int]@);
            assert(refs[i as int].path == entry.path@);
        }
        let bytes_ref = entry.bytes.as_ref();
        let uri = match image_to_base64_uri(entry.path.as_str(), bytes_ref) {
            Ok(u) => u,
            Err(e) => {
                proof {
                    assert(refs[i as int].bytes == (match bytes_ref {
                        Some(v) => Some(v@),
                        None => None::<Seq<u8>>,
                    }));
                    assert(spec_image_uri(refs[i as int].path, refs[i as int].bytes)
                        == Err::<Seq<char>, Seq<char>>(e@));
                    assert(refs.subrange(0, i + 1) =~= refs.subrange(0, i as int).push(
                        refs[i as int],
                    ));
                    lemma_image_uris_snoc(refs.subrange(0, i as int), refs[i as int]);
                    lemma_image_uris_err_prefix(refs, i + 1);
                }
                return Err(e);
            },
        };
        let ghost old_uris = uris.deep_view();
        uris.push(uri);
        proof {
            assert(refs[i as int].bytes == (match bytes_ref {
                Some(v) => Some(v@),
                None => None::<Seq<u8>>,
            }));
            assert(spec_image_uri(refs[i as int].path, refs[i as int].bytes)
                == Ok::<Seq<char>, Seq<char>>(uri@));
            assert(refs.subrange(0, i + 1) =~= refs.subrange(0, i as int).push(refs[i as int]));
            lemma_image_uris_snoc(refs.subrange(0, i as int), refs[i as int]);
            assert(uris.deep_view() =~= old_uris.push(uri@));
        }
        i += 1;
    }
    proof {
        assert(refs.subrange(0, n as int) =~= refs);
    }
    let body = doubao_request_body(payload, &uris);
    Ok(
        WireRequest {
            endpoint: String::from_str("https://ark.cn-beijing.volces.com/api/v3/images/generations"),
            api_key,
            body,
        },
    )
}

/// What building the Zhipu request yields: the watermark preference
/// defaults to on.
pub open spec fn spec_zhipu_request(
    m: Map<Seq<char>, crate::store::ValueModel>,
    p: PayloadModel,
) -> Result<WireRequestModel, Seq<char>> {
    match text_at(m, "zhipu_api_key"@) {
        None => Err(zhipu_key_missing()),
        Some(key) => Ok(
            WireRequestModel {
                endpoint: zhipu_endpoint(),
                api_key: key,
                body: spec_zhipu_body(
                    p,
                    match flag_at(m, "zhipu_watermark"@) {
                        Some(b) => b,
                        None => true,
                    },
                ),
            },
        ),
    }
}

/// Build the full Zhipu request: fails without a configured credential.
/// The watermark preference defaults to on.
pub fn build_zhipu_request(store: &SettingsStore, payload: &GeneratePayload) -> (r: Result<
    WireRequest,
    String,
>)
    requires
        store.wf(),
    ensures
        match r {
            Ok(w) => spec_zhipu_request(store@, payload@) == Ok::<WireRequestModel, Seq<char>>(
                w@,
            ),
            Err(e) => spec_zhipu_request(store@, payload@) == Err::<WireRequestModel, Seq<char>>(
                e@,
            ),
        },
{
    let api_key = match store.get_text("zhipu_api_key") {
        Some(k) => k,
        None => {
            return Err(String::from_str("Zhipu API Token not found. Please configure it in Settings."));
        },
    };
    let watermark = match store.get_flag("zhipu_watermark") {
        Some(b) => b,
        None => true,
    };
    let body = zhipu_request_body(payload, watermark);
    Ok(
        WireRequest {
            endpoint: String::from_str("https://open.bigmodel.cn/api/paas/v4/images/generations"),
            api_key,
            body,
        },
    )
}

/// The OpenAI credential: the primary key name, falling back to the
/// legacy name for configurations written before the rename.
pub open spec fn openai_key(m: Map<Seq<char>, crate::store::ValueModel>) -> Option<Seq<char>> {
    match text_at(m, "openai_api_key"@) {
        Some(k) => Some(k),
        None => text_at(m, "api_key"@),
    }
}

/// What building the OpenAI-compatible request yields: endpoint and model
/// are configurable with fixed defaults.
pub open spec fn spec_openai_request(
    m: Map<Seq<char>, crate::store::ValueModel>,
    p: PayloadModel,
) -> Result<WireRequestModel, Seq<char>> {
    match openai_key(m) {
        None => Err(openai_key_missing()),
        Some(key) => Ok(
            WireRequestModel {
                endpoint: match text_at(m, "openai_endpoint"@) {
                    Some(u) => u,
                    None => default_openai_endpoint(),
                },
                api_key: key,
                body: spec_openai_body(
                    p,
                    match text_at(m, "openai_model"@) {
                        Some(x) => x,
                        None => default_openai_model(),
                    },
                ),
            },
        ),
    }
}

/// Build the full OpenAI-compatible request: fails without a configured
/// credential under either the primary or the legacy key name.
pub fn build_openai_request(store: &SettingsStore, payload: &GeneratePayload) -> (r: Result<
    WireRequest,
    String,
>)
    requires
        store.wf(),
    ensures
        match r {
            Ok(w) => spec_openai_request(store@, payload@) == Ok::<WireRequestModel, Seq<char>>(
                w@,
            ),
            Err(e) => spec_openai_request(store@, payload@) == Err::<WireRequestModel, Seq<char>>(
                e@,
            ),
        },
{
    let api_key = match store.get_text("openai_api_key") {
        Some(k) => k,
        None => match store.get_text("api_key") {
            Some(k) => k,
            None => {
                return Err(String::from_str("OpenAI API Token not found. Please configure it in Settings."));
            },
        },
    };
    let endpoint = match store.get_text("openai_endpoint") {
        Some(u) => u,
        None => String::from_str("https://api.openai.com/v1/images/generations"),
    };
    let model = match store.get_text("openai_model") {
        Some(u) => u,
        None => String::from_str("gpt-image-1"),
    };
    let body = openai_request_body(payload, model.as_str());
    Ok(WireRequest { endpoint, api_key, body })
}

} // verus!
