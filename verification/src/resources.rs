//! CRUD over the persisted resource list. The list is read whole,
//! mutated here, and written back whole by the surrounding binary; each
//! resource owns a private directory named after its identifier, into
//! which its reference images are copied at creation.

use vstd::prelude::*;

use crate::models::{
    clone_resource, CreateResourcePayload, Resource, ResourceModel, UpdatePayloadModel,
    UpdateResourcePayload,
};
use crate::outside::{new_uuid_string, now_millis};
use crate::strutil::{file_name, path_join, spec_file_name, str_eq};

verus! {

/// The directory that holds every resource's private directory, relative
/// to the platform documents directory.
pub open spec fn spec_resource_base() -> Seq<char> {
    "ImageGen/Resources"@
}

/// The private directory of the resource with the given identifier.
pub open spec fn spec_resource_dir(docs: Seq<char>, id: Seq<char>) -> Seq<char> {
    docs + seq!['/'] + spec_resource_base() + seq!['/'] + id
}

/// The private directory of a resource, under the documents directory.
pub fn resource_dir(documents_dir: &str, id: &str) -> (r: String)
    ensures
        r@ == spec_resource_dir(documents_dir@, id@),
{
    let base = path_join(documents_dir, "ImageGen/Resources");
    path_join(base.as_str(), id)
}

/// The copies to make for a resource: each source that exists goes to the
/// resource directory under its own file name, in order; sources that do
/// not exist are silently skipped.
pub open spec fn spec_copy_plan(dir: Seq<char>, sources: Seq<(Seq<char>, bool)>) -> Seq<
    (Seq<char>, Seq<char>),
>
    decreases sources.len(),
{
    if sources.len() == 0 {
        seq![]
    } else {
        spec_copy_plan(dir, sources.drop_last()) + (if sources.last().1 {
            seq![
                (sources.last().0, dir + seq!['/'] + spec_file_name(sources.last().0)),
            ]
        } else {
            seq![]
        })
    }
}

/// Law: every copy destination lies inside the resource's own directory —
/// it is `dir`, then `/`, then a file name. The created record therefore
/// only ever references files of its private directory.
pub proof fn lemma_copy_dests_under_dir(dir: Seq<char>, sources: Seq<(Seq<char>, bool)>)
    ensures
        forall|k: int| 0 <= k < spec_copy_plan(dir, sources).len() ==> {
            let dest = (#[trigger] spec_copy_plan(dir, sources)[k]).1;
            dest.len() > dir.len() && dest.subrange(0, dir.len() as int) == dir && dest[dir.len()
                as int] == '/'
        },
    decreases sources.len(),
{
    if sources.len() > 0 {
        lemma_copy_dests_under_dir(dir, sources.drop_last());
        let whole = spec_copy_plan(dir, sources);
        let prev = spec_copy_plan(dir, sources.drop_last());
        assert forall|k: int| 0 <= k < whole.len() implies {
            let dest = (#[trigger] whole[k]).1;
            dest.len() > dir.len() && dest.subrange(0, dir.len() as int) == dir && dest[dir.len()
                as int] == '/'
        } by {
            if k < prev.len() {
                assert(whole[k] == prev[k]);
            } else {
                let dest = dir + seq!['/'] + spec_file_name(sources.last().0);
                assert(whole[k].1 == dest);
                assert(dest.subrange(0, dir.len() as int) =~= dir);
                assert(dest[dir.len() as int] == '/');
            }
        }
    }
}

/// Plan the image copies for a new resource. `sources` pairs each source
/// path with whether the file exists; only existing sources are copied.
pub fn plan_resource_copies(dir: &str, sources: &Vec<(String, bool)>) -> (r: Vec<
    (String, String),
>)
    ensures
        r.deep_view() == spec_copy_plan(dir@, sources.deep_view()),
{
    let ghost sv = sources.deep_view();
    let mut r: Vec<(String, String)> = Vec::new();
    let n = sources.len();
    let mut i: usize = 0;
    proof {
        assert(sv.subrange(0, 0) =~= Seq::<(Seq<char>, bool)>::empty());
        assert(r.deep_view() =~= spec_copy_plan(dir@, sv.subrange(0, 0)));
    }
    while i < n
        invariant
            n == sources@.len(),
            sv == sources.deep_view(),
            i <= n,
            r.deep_view() == spec_copy_plan(dir@, sv.subrange(0, i as int)),
        decreases n - i,
    {
        let ghost old_r = r.deep_view();
        let (src, exists) = &sources[i];
        proof {
            assert(sv[i as int] == (src@, *exists));
        }
        if *exists {
            let dest = path_join(dir, file_name(src.as_str()).as_str());
            r.push((src.clone(), dest));
            proof {
                assert(r.deep_view() =~= old_r.push((src@, dir@ + seq!['/'] + spec_file_name(
                    src@,
                ))));
            }
        }
        proof {
            assert(sv.subrange(0, i + 1).drop_last() =~= sv.subrange(0, i as int));
            assert(sv.subrange(0, i + 1).last() == sv[i as int]);
            assert(r.deep_view() =~= spec_copy_plan(dir@, sv.subrange(0, i + 1)));
        }
        i += 1;
    }
    proof {
        assert(sv.subrange(0, n as int) =~= sv);
    }
    r
}

/// Begin creating a resource: draw the fresh random identifier and name
/// the private directory it owns under the documents directory.
pub fn begin_resource(documents_dir: &str) -> (r: (String, String))
    ensures
        r.0@.len() == 36,
        r.1@ == spec_resource_dir(documents_dir@, r.0@),
{
    let id = new_uuid_string();
    let dir = resource_dir(documents_dir, id.as_str());
    (id, dir)
}

/// Create a resource under an identifier drawn by [`begin_resource`]:
/// both timestamps set to the current time, the fields taken from the
/// payload, the images being the destinations of the copies just made.
/// The new record is appended to the list, which the caller persists
/// whole.
pub fn create_resource(
    resources: &mut Vec<Resource>,
    payload: &CreateResourcePayload,
    images: Vec<String>,
    id: String,
) -> (r: Resource)
    ensures
        final(resources)@.len() == old(resources)@.len() + 1,
        forall|j: int| 0 <= j < old(resources)@.len() ==> final(resources)@[j] == old(
            resources,
        )@[j],
        final(resources)@.last()@ == r@,
        r@.id == id@,
        r@.name == payload@.name,
        r@.description == payload@.description,
        r@.prompt_template == payload@.prompt,
        r@.images == images.deep_view(),
        r@.created_at == r@.updated_at,
{
    let timestamp = now_millis();
    let description = match &payload.description {
        Some(d) => Some(d.clone()),
        None => None,
    };
    let resource = Resource {
        id,
        name: payload.name.clone(),
        description,
        prompt_template: payload.prompt.clone(),
        images,
        created_at: timestamp,
        updated_at: timestamp,
    };
    let returned = clone_resource(&resource);
    resources.push(resource);
    returned
}

/// The list a stored value denotes: the stored list itself, or the empty
/// list where nothing was persisted yet.
pub fn list_resources(stored: Option<Vec<Resource>>) -> (r: Vec<Resource>)
    ensures
        match stored {
            Some(v) => r@ == v@,
            None => r@.len() == 0,
        },
{
    match stored {
        Some(v) => v,
        None => Vec::new(),
    }
}

/// The position of the first resource with the given identifier.
pub open spec fn spec_find(s: Seq<Resource>, id: Seq<char>) -> Option<int>
    decreases s.len(),
{
    if s.len() == 0 {
        None
    } else if s.first()@.id == id {
        Some(0)
    } else {
        match spec_find(s.drop_first(), id) {
            Some(k) => Some(k + 1),
            None => None,
        }
    }
}

pub proof fn lemma_find_at(s: Seq<Resource>, id: Seq<char>, i: int)
    requires
        0 <= i < s.len(),
        s[i]@.id == id,
        forall|j: int| 0 <= j < i ==> s[j]@.id != id,
    ensures
        spec_find(s, id) == Some(i),
    decreases s.len(),
{
    if i > 0 {
        assert(s.first()@.id != id);
        assert(s.drop_first()[i - 1] == s[i]);
        assert(forall|j: int| 0 <= j < i - 1 ==> s.drop_first()[j] == s[j + 1]);
        lemma_find_at(s.drop_first(), id, i - 1);
    }
}

pub proof fn lemma_find_none(s: Seq<Resource>, id: Seq<char>)
    requires
        forall|j: int| 0 <= j < s.len() ==> s[j]@.id != id,
    ensures
        spec_find(s, id) is None,
    decreases s.len(),
{
    if s.len() > 0 {
        assert(forall|j: int| 0 <= j < s.len() - 1 ==> s.drop_first()[j] == s[j + 1]);
        lemma_find_none(s.drop_first(), id);
    }
}

/// The record after applying a patch: present fields overwrite, absent
/// fields are left unchanged, and the update time is bumped.
pub open spec fn spec_patch(r: ResourceModel, p: UpdatePayloadModel, ts: i64) -> ResourceModel {
    ResourceModel {
        id: r.id,
        name: match p.name {
            Some(n) => n,
            None => r.name,
        },
        description: match p.description {
            Some(d) => Some(d),
            None => r.description,
        },
        prompt_template: match p.prompt {
            Some(t) => t,
            None => r.prompt_template,
        },
        images: match p.images {
            Some(im) => im,
            None => r.images,
        },
        created_at: r.created_at,
        updated_at: ts,
    }
}

/// Update the first resource whose identifier the patch names: fails with
/// "No resources found" where nothing was persisted, with "Resource not
/// found" where no record matches; otherwise overwrites the present patch
/// fields, bumps the update time to now, and returns the updated record
/// beside the new list for the caller to persist whole.
pub fn update_resource(stored: Option<Vec<Resource>>, payload: &UpdateResourcePayload) -> (r:
    Result<(Vec<Resource>, Resource), String>)
    ensures
        match r {
            Err(e) => (stored is None && e@ == "No resources found"@) || (stored matches Some(v)
                && spec_find(v@, payload@.id) is None && e@ == "Resource not found"@),
            Ok((list, updated)) => stored matches Some(v) && (spec_find(v@, payload@.id)
                matches Some(i) && list@.len() == v@.len() && (forall|j: int|
                0 <= j < v@.len() && j != i ==> list@[j] == v@[j]) && list@[i]@ == updated@
                && updated@ == spec_patch(v@[i]@, payload@, updated@.updated_at)),
        },
{
    let mut resources = match stored {
        Some(v) => v,
        None => {
            return Err(String::from_str("No resources found"));
        },
    };
    let ghost orig = resources@;
    let n = resources.len();
    let mut i: usize = 0;
    while i < n
        invariant
            n == resources@.len(),
            orig == resources@,
            stored matches Some(v) && orig == v@,
            i <= n,
            forall|j: int| 0 <= j < i ==> resources@[j]@.id != payload@.id,
        decreases n - i,
    {
        if str_eq(resources[i].id.as_str(), payload.id.as_str()) {
            let timestamp = now_millis();
            let old_record = &resources[i];
            let updated = Resource {
                id: old_record.id.clone(),
                name: match &payload.name {
                    Some(v) => v.clone(),
                    None => old_record.name.clone(),
                },
                description: match &payload.description {
                    Some(v) => Some(v.clone()),
                    None => match &old_record.description {
                        Some(d) => Some(d.clone()),
                        None => None,
                    },
                },
                prompt_template: match &payload.prompt {
                    Some(v) => v.clone(),
                    None => old_record.prompt_template.clone(),
                },
                images: match &payload.images {
                    Some(v) => v.clone(),
                    None => old_record.images.clone(),
                },
                created_at: old_record.created_at,
                updated_at: timestamp,
            };
            proof {
                lemma_find_at(orig, payload@.id, i as int);
                assert(updated@ == spec_patch(orig[i as int]@, payload@, timestamp));
            }
            let result = clone_resource(&updated);
            let ghost stored_value = updated;
            resources[i] = updated;
            proof {
                assert(resources@ =~= orig.update(i as int, stored_value));
            }
            return Ok((resources, result));
        }
        i += 1;
    }
    proof {
        lemma_find_none(orig, payload@.id);
    }
    Err(String::from_str("Resource not found"))
}

/// The list with every record of the given identifier removed, other
/// records kept in order.
pub open spec fn spec_remove_id(s: Seq<Resource>, id: Seq<char>) -> Seq<Resource>
    decreases s.len(),
{
    if s.len() == 0 {
        seq![]
    } else {
        spec_remove_id(s.drop_last(), id) + (if s.last()@.id == id {
            seq![]
        } else {
            seq![s.last()]
        })
    }
}

/// Law: no resource with the removed identifier survives the removal.
pub proof fn lemma_removed_id_gone(s: Seq<Resource>, id: Seq<char>)
    ensures
        forall|k: int| 0 <= k < spec_remove_id(s, id).len() ==> spec_remove_id(s, id)[k]@.id
            != id,
    decreases s.len(),
{
    if s.len() > 0 {
        lemma_removed_id_gone(s.drop_last(), id);
    }
}

/// Remove the resource with the given identifier from the list,
/// unconditionally: an absent store yields the empty list, a list without
/// the identifier is returned unchanged, and the caller persists the
/// result whole. The record leaves the list even when the removal of its
/// private directory failed.
pub fn delete_resource(stored: Option<Vec<Resource>>, id: &str) -> (r: Vec<Resource>)
    ensures
        match stored {
            None => r@.len() == 0,
            Some(v) => r@ == spec_remove_id(v@, id@),
        },
        forall|k: int| 0 <= k < r@.len() ==> r@[k]@.id != id@,
{
    let resources = match stored {
        Some(v) => v,
        None => {
            return Vec::new();
        },
    };
    let ghost orig = resources@;
    let mut rest = resources;
    let mut r: Vec<Resource> = Vec::new();
    let ghost mut i: int = 0;
    proof {
        assert(orig.subrange(0, 0) =~= Seq::<Resource>::empty());
        assert(r@ =~= spec_remove_id(orig.subrange(0, 0), id@));
    }
    while rest.len() > 0
        invariant
            0 <= i <= orig.len(),
            rest@ =~= orig.subrange(i, orig.len() as int),
            r@ == spec_remove_id(orig.subrange(0, i), id@),
        decreases rest@.len(),
    {
        let x = rest.remove(0);
        proof {
            assert(x == orig[i]);
        }
        if !str_eq(x.id.as_str(), id) {
            r.push(x);
        }
        proof {
            assert(orig.subrange(0, i + 1).drop_last() =~= orig.subrange(0, i));
            assert(orig.subrange(0, i + 1).last() == orig[i]);
            assert(r@ =~= spec_remove_id(orig.subrange(0, i + 1), id@));
            i = i + 1;
        }
    }
    proof {
        assert(orig.subrange(0, orig.len() as int) =~= orig);
        lemma_removed_id_gone(orig, id@);
    }
    r
}

} // verus!
