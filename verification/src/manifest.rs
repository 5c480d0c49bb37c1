//! Manifests: what is recorded of a filesystem resource.

use vstd::prelude::*;

use crate::digest::{canonical_digest, digest_canonical_value};
use crate::json::{Json, JsonView, array_view, object_view, push_field, text_value};
use crate::order::Key;
use crate::path::{NativePath, path_text};
use crate::text::{copy_opt, opt_view, same_opt, views};

verus! {

/// The components of a path.
pub type PathView = Seq<Seq<char>>;

/// What kind of resource stands at a path.
#[derive(Clone, Copy, Debug, PartialEq, Eq, Structural)]
pub enum ResourceKind {
    File,
    Directory,
    Missing,
}

impl View for ResourceKind {
    type V = ResourceKind;

    open spec fn view(&self) -> ResourceKind {
        *self
    }
}

/// The name of a kind of resource in records.
pub open spec fn kind_text(kind: ResourceKind) -> Seq<char> {
    match kind {
        ResourceKind::File => "file"@,
        ResourceKind::Directory => "directory"@,
        ResourceKind::Missing => "missing"@,
    }
}

/// The name of a kind of resource in records.
pub fn kind_name(kind: ResourceKind) -> (r: &'static str)
    ensures
        r@ == kind_text(kind),
{
    match kind {
        ResourceKind::File => "file",
        ResourceKind::Directory => "directory",
        ResourceKind::Missing => "missing",
    }
}

/// What is recorded of the resource at one path.
pub struct ManifestEntry {
    pub path: NativePath,
    pub exists: bool,
    pub resource_kind: ResourceKind,
    pub identity_digest: Option<String>,
    pub content_digest: Option<String>,
    pub metadata_digest: Option<String>,
}

/// What a [`ManifestEntry`] stands for.
#[verifier::ext_equal]
pub ghost struct ManifestView {
    pub path: PathView,
    pub exists: bool,
    pub resource_kind: ResourceKind,
    pub identity_digest: Option<Seq<char>>,
    pub content_digest: Option<Seq<char>>,
    pub metadata_digest: Option<Seq<char>>,
}

impl View for ManifestEntry {
    type V = ManifestView;

    open spec fn view(&self) -> ManifestView {
        ManifestView {
            path: self.path@,
            exists: self.exists,
            resource_kind: self.resource_kind,
            identity_digest: opt_view(self.identity_digest),
            content_digest: opt_view(self.content_digest),
            metadata_digest: opt_view(self.metadata_digest),
        }
    }
}

/// The record of a path at which nothing stands.
pub open spec fn missing_at(path: PathView) -> ManifestView {
    ManifestView {
        path,
        exists: false,
        resource_kind: ResourceKind::Missing,
        identity_digest: None,
        content_digest: None,
        metadata_digest: None,
    }
}

/// The record of a path at which nothing stands.
pub fn missing_manifest(path: &NativePath) -> (r: ManifestEntry)
    ensures
        r@ == missing_at(path@),
{
    ManifestEntry {
        path: path.duplicate(),
        exists: false,
        resource_kind: ResourceKind::Missing,
        identity_digest: None,
        content_digest: None,
        metadata_digest: None,
    }
}

impl ManifestEntry {
    /// A record with the same view.
    pub fn copy(&self) -> (r: ManifestEntry)
        ensures
            r@ == self@,
    {
        ManifestEntry {
            path: self.path.duplicate(),
            exists: self.exists,
            resource_kind: self.resource_kind,
            identity_digest: copy_opt(&self.identity_digest),
            content_digest: copy_opt(&self.content_digest),
            metadata_digest: copy_opt(&self.metadata_digest),
        }
    }

    /// Whether two records are equal.
    pub fn same_entry(&self, other: &ManifestEntry) -> (r: bool)
        ensures
            r == (self@ == other@),
    {
        self.path.same_path(&other.path) && self.exists == other.exists && self.resource_kind == other.resource_kind
            && same_opt(&self.identity_digest, &other.identity_digest) && same_opt(
            &self.content_digest,
            &other.content_digest,
        ) && same_opt(&self.metadata_digest, &other.metadata_digest)
    }
}

/// A field that is left out where its value is absent.
pub open spec fn optional_text_field(name: Seq<char>, value: Option<Seq<char>>) -> Seq<(Seq<char>, JsonView)> {
    match value {
        Some(text) => seq![(name, JsonView::Text(text))],
        None => seq![],
    }
}

/// A record in JSON.
pub open spec fn manifest_json(entry: ManifestView) -> JsonView {
    JsonView::Object(
        optional_text_field("contentDigest"@, entry.content_digest) + seq![("exists"@, JsonView::Bool(entry.exists))]
            + optional_text_field("identityDigest"@, entry.identity_digest) + optional_text_field(
            "metadataDigest"@,
            entry.metadata_digest,
        ) + seq![
            ("path"@, JsonView::Text(path_text(entry.path))),
            ("resourceKind"@, JsonView::Text(kind_text(entry.resource_kind))),
        ],
    )
}

/// Records in JSON.
pub open spec fn manifests_json(list: Seq<ManifestView>) -> JsonView {
    JsonView::Array(Seq::new(list.len(), |i: int| manifest_json(list[i])))
}

/// Appends a field where its value is there.
pub fn push_optional_text(o: &mut Vec<(String, Json)>, name: &str, value: &Option<String>)
    ensures
        object_view(final(o)@) == object_view(old(o)@) + optional_text_field(name@, opt_view(*value)),
{
    match value {
        Some(text) => {
            push_field(o, name, text_value(text.as_str()));
            assert(object_view(o@) =~= object_view(old(o)@) + optional_text_field(name@, opt_view(*value)));
        },
        None => {
            assert(object_view(o@) =~= object_view(old(o)@) + optional_text_field(name@, opt_view(*value)));
        },
    }
}

impl ManifestEntry {
    /// The record in JSON.
    pub fn to_json(&self) -> (r: Json)
        ensures
            r@ == manifest_json(self@),
    {
        let mut o: Vec<(String, Json)> = Vec::new();
        assert(object_view(o@) =~= seq![]);
        push_optional_text(&mut o, "contentDigest", &self.content_digest);
        push_field(&mut o, "exists", Json::Bool(self.exists));
        push_optional_text(&mut o, "identityDigest", &self.identity_digest);
        push_optional_text(&mut o, "metadataDigest", &self.metadata_digest);
        push_field(&mut o, "path", Json::Text(self.path.to_text()));
        push_field(&mut o, "resourceKind", text_value(kind_name(self.resource_kind)));
        assert(JsonView::Object(object_view(o@)) == manifest_json(self@)) by {
            assert(object_view(o@) =~= manifest_json(self@)->Object_0);
        }
        Json::Object(o)
    }
}

/// Records in JSON.
pub fn manifests_to_json(list: &Vec<ManifestEntry>) -> (r: Json)
    ensures
        r@ == manifests_json(views(list@)),
{
    let mut items: Vec<Json> = Vec::new();
    let mut i: usize = 0;
    while i < list.len()
        invariant
            i <= list@.len(),
            items@.len() == i,
            forall|j: int| 0 <= j < i ==> (#[trigger] items@[j])@ == manifest_json(list@[j]@),
        decreases list.len() - i,
    {
        items.push(list[i].to_json());
        i += 1;
    }
    assert(array_view(items@) =~= manifests_json(views(list@))->Array_0);
    Json::Array(items)
}

/// The digest of a manifest.
pub open spec fn manifest_digest_of(list: Seq<ManifestView>) -> Seq<char> {
    canonical_digest("lspctl-mutation-manifest-v1"@, manifests_json(list))
}

/// The digest of a manifest.
pub fn manifest_digest(list: &Vec<ManifestEntry>) -> (r: String)
    ensures
        r@ == manifest_digest_of(views(list@)),
{
    digest_canonical_value("lspctl-mutation-manifest-v1", &manifests_to_json(list))
}

/// Copies records.
pub fn copy_manifest(list: &Vec<ManifestEntry>) -> (r: Vec<ManifestEntry>)
    ensures
        views(r@) == views(list@),
{
    let mut r: Vec<ManifestEntry> = Vec::new();
    let mut i: usize = 0;
    while i < list.len()
        invariant
            i <= list.len(),
            r@.len() == i,
            forall|j: int| 0 <= j < i ==> #[trigger] r@[j]@ == list@[j]@,
        decreases list.len() - i,
    {
        r.push(list[i].copy());
        i += 1;
    }
    assert(views(r@) =~= views(list@));
    r
}

} // verus!
