//! The response side of the provider adapters: what a vendor's response
//! body denotes once decoded into plain values, and which images it
//! yields. Doubao and Zhipu answer with hosted URLs that are fetched
//! separately; an OpenAI-compatible vendor answers with inline base64
//! payloads that are decoded directly.

use vstd::prelude::*;

use crate::outside::{b64_decoded, base64_decode};
use crate::wire::{spec_vendor_name, vendor_name, Provider};

verus! {

/// One entry of a vendor response's `data` array, reduced to the fields
/// the adapters read.
#[derive(Debug, Clone, PartialEq, Eq)]
pub struct VendorImageEntry {
    pub url: Option<String>,
    pub b64_json: Option<String>,
}

/// Mathematical model of a [`VendorImageEntry`].
pub struct VendorImageEntryModel {
    pub url: Option<Seq<char>>,
    pub b64_json: Option<Seq<char>>,
}

impl View for VendorImageEntry {
    type V = VendorImageEntryModel;

    open spec fn view(&self) -> VendorImageEntryModel {
        VendorImageEntryModel { url: self.url.deep_view(), b64_json: self.b64_json.deep_view() }
    }
}

/// The models of a sequence of response entries.
pub open spec fn entry_models(s: Seq<VendorImageEntry>) -> Seq<VendorImageEntryModel> {
    Seq::new(s.len(), |i: int| s[i]@)
}

/// A vendor response, reduced to the part the adapters read: the `data`
/// array, or its absence.
#[derive(Debug, Clone, PartialEq, Eq)]
pub struct VendorResponse {
    pub data: Option<Vec<VendorImageEntry>>,
}

/// Mathematical model of a [`VendorResponse`].
pub struct VendorResponseModel {
    pub data: Option<Seq<VendorImageEntryModel>>,
}

impl View for VendorResponse {
    type V = VendorResponseModel;

    open spec fn view(&self) -> VendorResponseModel {
        VendorResponseModel {
            data: match self.data {
                Some(v) => Some(entry_models(v@)),
                None => None,
            },
        }
    }
}

/// One image a response yields: a hosted URL still to fetch, or bytes
/// already decoded.
#[derive(Debug, Clone, PartialEq, Eq)]
pub enum ImageSource {
    Url(String),
    Bytes(Vec<u8>),
}

/// Mathematical model of an [`ImageSource`].
pub enum ImageSourceModel {
    Url(Seq<char>),
    Bytes(Seq<u8>),
}

impl View for ImageSource {
    type V = ImageSourceModel;

    open spec fn view(&self) -> ImageSourceModel {
        match self {
            ImageSource::Url(u) => ImageSourceModel::Url(u@),
            ImageSource::Bytes(b) => ImageSourceModel::Bytes(b@),
        }
    }
}

/// The models of a sequence of image sources.
pub open spec fn source_models(s: Seq<ImageSource>) -> Seq<ImageSourceModel> {
    Seq::new(s.len(), |i: int| s[i]@)
}

/// The URLs the entries carry, in order; entries without one contribute
/// nothing.
pub open spec fn spec_urls(entries: Seq<VendorImageEntryModel>) -> Seq<Seq<char>>
    decreases entries.len(),
{
    if entries.len() == 0 {
        seq![]
    } else {
        spec_urls(entries.drop_last()) + (match entries.last().url {
            Some(u) => seq![u],
            None => seq![],
        })
    }
}

/// The base64 payloads the entries carry, in order; entries without one
/// contribute nothing.
pub open spec fn spec_b64s(entries: Seq<VendorImageEntryModel>) -> Seq<Seq<char>>
    decreases entries.len(),
{
    if entries.len() == 0 {
        seq![]
    } else {
        spec_b64s(entries.drop_last()) + (match entries.last().b64_json {
            Some(t) => seq![t],
            None => seq![],
        })
    }
}

/// The error reported when a vendor's response carries no image data.
pub open spec fn no_data_msg(p: Provider) -> Seq<char> {
    "No data in "@ + spec_vendor_name(p) + " response"@
}

/// The error reported when a vendor's inline payload is not valid base64.
pub open spec fn invalid_data_msg(p: Provider) -> Seq<char> {
    "Invalid image data in "@ + spec_vendor_name(p) + " response"@
}

/// What parsing a vendor response yields. A missing `data` array and an
/// empty image list both fail with the no-data error naming the vendor;
/// an undecodable inline payload fails with the invalid-data error.
pub open spec fn spec_parse(p: Provider, rm: VendorResponseModel) -> Result<
    Seq<ImageSourceModel>,
    Seq<char>,
> {
    match rm.data {
        None => Err(no_data_msg(p)),
        Some(entries) => if p is OpenAiCompat {
            let ts = spec_b64s(entries);
            if ts.len() == 0 {
                Err(no_data_msg(p))
            } else if exists|i: int| 0 <= i < ts.len() && b64_decoded(ts[i]) is None {
                Err(invalid_data_msg(p))
            } else {
                Ok(Seq::new(ts.len(), |i: int| ImageSourceModel::Bytes(b64_decoded(ts[i])->Some_0)))
            }
        } else {
            let us = spec_urls(entries);
            if us.len() == 0 {
                Err(no_data_msg(p))
            } else {
                Ok(Seq::new(us.len(), |i: int| ImageSourceModel::Url(us[i])))
            }
        },
    }
}

fn no_data_err(p: Provider) -> (e: String)
    ensures
        e@ == no_data_msg(p),
{
    let mut e = String::from_str("No data in ");
    e.append(vendor_name(p));
    e.append(" response");
    e
}

/// Interpret a vendor response: the images it yields, in order, or the
/// error [`spec_parse`] gives.
pub fn parse_vendor_images(p: Provider, resp: &VendorResponse) -> (r: Result<
    Vec<ImageSource>,
    String,
>)
    ensures
        match r {
            Ok(v) => spec_parse(p, resp@) == Ok::<Seq<ImageSourceModel>, Seq<char>>(
                source_models(v@),
            ),
            Err(e) => spec_parse(p, resp@) == Err::<Seq<ImageSourceModel>, Seq<char>>(e@),
        },
{
    let entries = match &resp.data {
        Some(v) => v,
        None => {
            return Err(no_data_err(p));
        },
    };
    let ghost em = entry_models(entries@);
    let n = entries.len();
    let is_b64_mode = match p {
        Provider::OpenAiCompat => true,
        _ => false,
    };
    if is_b64_mode {
        let mut texts: Vec<String> = Vec::new();
        let mut i: usize = 0;
        proof {
            assert(em.subrange(0, 0) =~= Seq::<VendorImageEntryModel>::empty());
            assert(texts.deep_view() =~= spec_b64s(em.subrange(0, 0)));
        }
        while i < n
            invariant
                n == entries@.len(),
                em == entry_models(entries@),
                p is OpenAiCompat,
                resp@.data == Some(em),
                i <= n,
                texts.deep_view() == spec_b64s(em.subrange(0, i as int)),
            decreases n - i,
        {
            let ghost old_texts = texts.deep_view();
            match &entries[i].b64_json {
                Some(t) => {
                    texts.push(t.clone());
                    proof {
                        assert(texts.deep_view() =~= old_texts.push(t@));
                    }
                },
                None => {
                },
            }
            proof {
                assert(em[i as int] == entries@[i as int]@);
                assert(em.subrange(0, i + 1).drop_last() =~= em.subrange(0, i as int));
                assert(em.subrange(0, i + 1).last() == em[i as int]);
                assert(texts.deep_view() =~= spec_b64s(em.subrange(0, i + 1)));
            }
            i += 1;
        }
        proof {
            assert(em.subrange(0, n as int) =~= em);
        }
        let ghost ts = spec_b64s(em);
        if texts.len() == 0 {
            return Err(no_data_err(p));
        }
        let mut out: Vec<ImageSource> = Vec::new();
        let m = texts.len();
        let mut j: usize = 0;
        while j < m
            invariant
                m == texts@.len(),
                m >= 1,
                ts == texts.deep_view(),
                ts == spec_b64s(em),
                p is OpenAiCompat,
                resp@.data == Some(em),
                j <= m,
                out@.len() == j,
                forall|k: int| 0 <= k < j ==> b64_decoded(ts[k]) is Some,
                forall|k: int| 0 <= k < j ==> out@[k]@ == ImageSourceModel::Bytes(
                    b64_decoded(ts[k])->Some_0,
                ),
            decreases m - j,
        {
            proof {
                assert(ts[j as int] == texts@[j as int]@);
            }
            match base64_decode(texts[j].as_str()) {
                Some(b) => {
                    out.push(ImageSource::Bytes(b));
                },
                None => {
                    let mut e = String::from_str("Invalid image data in ");
                    e.append(vendor_name(p));
                    e.append(" response");
                    return Err(e);
                },
            }
            j += 1;
        }
        proof {
            assert(source_models(out@) =~= Seq::new(
                ts.len(),
                |i: int| ImageSourceModel::Bytes(b64_decoded(ts[i])->Some_0),
            ));
        }
        Ok(out)
    } else {
        let mut out: Vec<ImageSource> = Vec::new();
        let mut i: usize = 0;
        proof {
            assert(em.subrange(0, 0) =~= Seq::<VendorImageEntryModel>::empty());
            assert(source_models(out@) =~= Seq::<ImageSourceModel>::empty());
        }
        while i < n
            invariant
                n == entries@.len(),
                em == entry_models(entries@),
                !(p is OpenAiCompat),
                resp@.data == Some(em),
                i <= n,
                out@.len() == spec_urls(em.subrange(0, i as int)).len(),
                forall|k: int| 0 <= k < out@.len() ==> out@[k]@ == ImageSourceModel::Url(
                    spec_urls(em.subrange(0, i as int))[k],
                ),
            decreases n - i,
        {
            let ghost old_out = out@;
            let entry = &entries[i];
            proof {
                assert(em[i as int] == entries@[i as int]@);
                assert(entry@ == em[i as int]);
            }
            match &entry.url {
                Some(u) => {
                    out.push(ImageSource::Url(u.clone()));
                    proof {
                        assert(em[i as int].url == Some(u@));
                        assert(out@.len() == old_out.len() + 1);
                        assert(out@.last()@ == ImageSourceModel::Url(u@));
                    }
                },
                None => {
                    proof {
                        assert(em[i as int].url is None);
                    }
                },
            }
            proof {
                assert(em.subrange(0, i + 1).drop_last() =~= em.subrange(0, i as int));
                assert(em.subrange(0, i + 1).last() == em[i as int]);
                let prev = spec_urls(em.subrange(0, i as int));
                let next = spec_urls(em.subrange(0, i + 1));
                assert(next =~= prev + (match em[i as int].url {
                    Some(u) => seq![u],
                    None => Seq::<Seq<char>>::empty(),
                }));
                assert forall|k: int| 0 <= k < out@.len() implies out@[k]@
                    == ImageSourceModel::Url(next[k]) by {
                    if k < old_out.len() {
                        assert(out@[k] == old_out[k]);
                        assert(old_out[k]@ == ImageSourceModel::Url(prev[k]));
                        assert(next[k] == prev[k]);
                    } else {
                        assert(k == out@.len() - 1);
                    }
                }
            }
            i += 1;
        }
        proof {
            assert(em.subrange(0, n as int) =~= em);
        }
        if out.len() == 0 {
            return Err(no_data_err(p));
        }
        proof {
            assert(source_models(out@) =~= Seq::new(
                spec_urls(em).len(),
                |k: int| ImageSourceModel::Url(spec_urls(em)[k]),
            ));
        }
        Ok(out)
    }
}

} // verus!
