//! The generation orchestrator's decisions: which provider handles a
//! request, where the output directory resolves to, which wire request is
//! posted, and which filenames a batch of returned images is saved under.
//! The surrounding binary performs the HTTP calls and writes the files.

use vstd::prelude::*;

use crate::models::GeneratePayload;
use crate::settings::{spec_default_provider, text_at};
use crate::store::{SettingsStore, ValueModel};
use crate::strutil::{
    dec_rep, is_absolute_path, lemma_dec_rep_injective, path_join, u64_to_dec,
};
use crate::wire::{
    build_doubao_request, build_openai_request, build_zhipu_request, provider_from_name,
    provider_tag, ref_images_match, ref_models, spec_doubao_request, spec_openai_request,
    spec_provider_of, spec_provider_tag, spec_zhipu_request, Provider, RefImage, WireRequest,
    WireRequestModel,
};

verus! {

/// The output directory assumed when none is configured, relative to the
/// platform documents directory.
pub open spec fn spec_default_output_dir() -> Seq<char> {
    "ImageGen/Outputs"@
}

/// Where generated images are saved: the configured directory verbatim
/// where it is absolute, otherwise resolved under the documents directory.
pub open spec fn spec_resolve_output_dir(
    m: Map<Seq<char>, ValueModel>,
    docs: Seq<char>,
) -> Seq<char> {
    let dir = match text_at(m, "output_dir"@) {
        Some(d) => d,
        None => spec_default_output_dir(),
    };
    if dir.len() > 0 && dir[0] == '/' {
        dir
    } else {
        docs + seq!['/'] + dir
    }
}

/// Resolve the output directory from the settings.
pub fn resolve_output_dir(store: &SettingsStore, documents_dir: &str) -> (r: String)
    requires
        store.wf(),
    ensures
        r@ == spec_resolve_output_dir(store@, documents_dir@),
{
    let dir = match store.get_text("output_dir") {
        Some(d) => d,
        None => String::from_str("ImageGen/Outputs"),
    };
    if is_absolute_path(dir.as_str()) {
        dir
    } else {
        path_join(documents_dir, dir.as_str())
    }
}

/// The provider name the settings hold, with its default.
pub open spec fn configured_provider_name(m: Map<Seq<char>, ValueModel>) -> Seq<char> {
    match text_at(m, "provider"@) {
        Some(n) => n,
        None => spec_default_provider(),
    }
}

/// The provider the settings select.
pub fn provider_from_store(store: &SettingsStore) -> (p: Provider)
    requires
        store.wf(),
    ensures
        p == spec_provider_of(configured_provider_name(store@)),
{
    match store.get_text("provider") {
        Some(n) => provider_from_name(n.as_str()),
        None => provider_from_name("doubao"),
    }
}

/// The filename a saved image gets: `{tag}_{millis}_{index}.png`, the
/// timestamp shared by the whole batch, the index the image's position
/// within it.
pub open spec fn spec_filename(tag: Seq<char>, millis: u64, index: nat) -> Seq<char> {
    tag + seq!['_'] + dec_rep(millis as nat) + seq!['_'] + dec_rep(index) + seq![
        '.',
        'p',
        'n',
        'g',
    ]
}

/// Render the filename for one image of a batch.
pub fn make_filename(tag: &str, millis: u64, index: u64) -> (r: String)
    ensures
        r@ == spec_filename(tag@, millis, index as nat),
{
    let mut s = String::from_str(tag);
    s.append("_");
    s.append(u64_to_dec(millis).as_str());
    s.append("_");
    s.append(u64_to_dec(index).as_str());
    s.append(".png");
    proof {
        reveal_strlit("_");
        reveal_strlit(".png");
        assert(s@ =~= spec_filename(tag@, millis, index as nat));
    }
    s
}

/// Law: within one batch — same tag, same timestamp — distinct indices
/// always give distinct filenames.
pub proof fn lemma_filename_unique(tag: Seq<char>, millis: u64, i: nat, j: nat)
    requires
        i != j,
    ensures
        spec_filename(tag, millis, i) != spec_filename(tag, millis, j),
{
    let a = spec_filename(tag, millis, i);
    let b = spec_filename(tag, millis, j);
    if a == b {
        let p = tag + seq!['_'] + dec_rep(millis as nat) + seq!['_'];
        assert(a.len() == p.len() + dec_rep(i).len() + 4);
        assert(b.len() == p.len() + dec_rep(j).len() + 4);
        assert(dec_rep(i).len() == dec_rep(j).len());
        assert forall|k: int| 0 <= k < dec_rep(i).len() implies dec_rep(i)[k] == dec_rep(j)[k] by {
            assert(a[p.len() + k] == dec_rep(i)[k]);
            assert(b[p.len() + k] == dec_rep(j)[k]);
        }
        assert(dec_rep(i) =~= dec_rep(j));
        lemma_dec_rep_injective(i, j);
        assert(false);
    }
}

/// Plan where a batch of `count` returned images is saved: for each index
/// the filename and the full path, one per image, in the adapter's order,
/// all filenames and paths pairwise distinct.
pub fn plan_batch_files(output_dir: &str, tag: &str, millis: u64, count: usize) -> (r: Vec<
    (String, String),
>)
    ensures
        r@.len() == count,
        forall|i: int| 0 <= i < count ==> r@[i].0@ == spec_filename(tag@, millis, i as nat),
        forall|i: int| 0 <= i < count ==> r@[i].1@ == output_dir@ + seq!['/'] + spec_filename(
            tag@,
            millis,
            i as nat,
        ),
        forall|i: int, j: int| 0 <= i < j < count ==> r@[i].0@ != r@[j].0@,
        forall|i: int, j: int| 0 <= i < j < count ==> r@[i].1@ != r@[j].1@,
{
    let mut r: Vec<(String, String)> = Vec::new();
    let mut i: usize = 0;
    while i < count
        invariant
            i <= count,
            r@.len() == i,
            forall|k: int| 0 <= k < i ==> r@[k].0@ == spec_filename(tag@, millis, k as nat),
            forall|k: int| 0 <= k < i ==> r@[k].1@ == output_dir@ + seq!['/'] + spec_filename(
                tag@,
                millis,
                k as nat,
            ),
        decreases count - i,
    {
        let name = make_filename(tag, millis, i as u64);
        let path = path_join(output_dir, name.as_str());
        r.push((name, path));
        i += 1;
    }
    proof {
        assert forall|i: int, j: int| 0 <= i < j < count implies r@[i].0@ != r@[j].0@ by {
            lemma_filename_unique(tag@, millis, i as nat, j as nat);
        }
        assert forall|i: int, j: int| 0 <= i < j < count implies r@[i].1@ != r@[j].1@ by {
            lemma_filename_unique(tag@, millis, i as nat, j as nat);
            let a = spec_filename(tag@, millis, i as nat);
            let b = spec_filename(tag@, millis, j as nat);
            if r@[i].1@ == r@[j].1@ {
                let d = output_dir@ + seq!['/'];
                assert(a.len() == b.len());
                assert forall|k: int| 0 <= k < a.len() implies a[k] == b[k] by {
                    assert((d + a)[d.len() + k] == a[k]);
                    assert((d + b)[d.len() + k] == b[k]);
                }
                assert(a =~= b);
            }
        }
    }
    r
}

/// Everything decided before the network is touched: the selected
/// provider, the resolved output directory, and the wire request.
#[derive(Debug, Clone, PartialEq, Eq)]
pub struct GenerationPlan {
    pub provider: Provider,
    pub output_dir: String,
    pub request: WireRequest,
}

/// Mathematical model of a [`GenerationPlan`].
pub struct GenerationPlanModel {
    pub provider: Provider,
    pub output_dir: Seq<char>,
    pub request: WireRequestModel,
}

impl View for GenerationPlan {
    type V = GenerationPlanModel;

    open spec fn view(&self) -> GenerationPlanModel {
        GenerationPlanModel {
            provider: self.provider,
            output_dir: self.output_dir@,
            request: self.request@,
        }
    }
}

/// What preparing a generation yields: the configured provider's request
/// builder decides, and the output directory resolves from the settings.
pub open spec fn spec_prepare(
    m: Map<Seq<char>, ValueModel>,
    docs: Seq<char>,
    p: crate::models::PayloadModel,
    refs: Seq<crate::wire::RefImageModel>,
) -> Result<GenerationPlanModel, Seq<char>> {
    let provider = spec_provider_of(configured_provider_name(m));
    let req = match provider {
        Provider::Doubao => spec_doubao_request(m, p, refs),
        Provider::Zhipu => spec_zhipu_request(m, p),
        Provider::OpenAiCompat => spec_openai_request(m, p),
    };
    match req {
        Err(e) => Err(e),
        Ok(w) => Ok(
            GenerationPlanModel {
                provider,
                output_dir: spec_resolve_output_dir(m, docs),
                request: w,
            },
        ),
    }
}

/// Decide a whole generation up to the network: select the provider the
/// settings name (unrecognized names fall back to Doubao), resolve the
/// output directory, and build the vendor request. Reference images are
/// handed in as loaded bytes and embedded only by the Doubao adapter.
pub fn prepare_generation(
    store: &SettingsStore,
    documents_dir: &str,
    payload: &GeneratePayload,
    ref_images: &Vec<RefImage>,
) -> (r: Result<GenerationPlan, String>)
    requires
        store.wf(),
        ref_images_match(payload@, ref_models(ref_images@)),
    ensures
        match r {
            Ok(plan) => spec_prepare(store@, documents_dir@, payload@, ref_models(ref_images@))
                == Ok::<GenerationPlanModel, Seq<char>>(plan@),
            Err(e) => spec_prepare(store@, documents_dir@, payload@, ref_models(ref_images@))
                == Err::<GenerationPlanModel, Seq<char>>(e@),
        },
{
    let provider = provider_from_store(store);
    let request = match provider {
        Provider::Doubao => build_doubao_request(store, payload, ref_images),
        Provider::Zhipu => build_zhipu_request(store, payload),
        Provider::OpenAiCompat => build_openai_request(store, payload),
    };
    match request {
        Err(e) => Err(e),
        Ok(w) => {
            let output_dir = resolve_output_dir(store, documents_dir);
            Ok(GenerationPlan { provider, output_dir, request: w })
        },
    }
}

} // verus!
