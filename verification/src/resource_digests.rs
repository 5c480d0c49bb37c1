//! Digests of resources: what identifies one, and what it carries besides its
//! content. Whether one has holes.

use vstd::prelude::*;

use crate::digest::{canonical_digest, digest_canonical_value, hex_encode, hex_text};
use crate::json::{Json, JsonView, object2, object4, object_view, set_field, with_field};

verus! {

/// What identifies a resource, in JSON.
pub open spec fn identity_json(device: u64, inode: u64) -> JsonView {
    JsonView::Object(seq![("device"@, JsonView::Int(device as int)), ("inode"@, JsonView::Int(inode as int))])
}

/// The digest of what identifies a resource.
pub fn identity_digest(device: u64, inode: u64) -> (r: String)
    ensures
        r@ == canonical_digest("lspctl-resource-identity-v1"@, identity_json(device, inode)),
{
    digest_canonical_value(
        "lspctl-resource-identity-v1",
        &object2("device", Json::Unsigned(device), "inode", Json::Unsigned(inode)),
    )
}

/// An attribute of a resource beyond the usual ones.
pub struct ExtendedAttribute {
    pub name: String,
    pub bytes: Vec<u8>,
}

/// The attributes of a resource in JSON, the last of a name counting.
pub open spec fn attributes_json(list: Seq<ExtendedAttribute>) -> Seq<(Seq<char>, JsonView)>
    decreases list.len(),
{
    if list.len() == 0 {
        seq![]
    } else {
        with_field(
            attributes_json(list.drop_last()),
            list.last().name@,
            JsonView::Text(hex_text(list.last().bytes@)),
        )
    }
}

/// What a resource carries besides its content, in JSON.
pub open spec fn metadata_json(mode: u32, uid: u32, gid: u32, attributes: Seq<ExtendedAttribute>) -> JsonView {
    JsonView::Object(
        seq![
            ("extendedAttributes"@, JsonView::Object(attributes_json(attributes))),
            ("gid"@, JsonView::Int(gid as int)),
            ("mode"@, JsonView::Int(mode as int)),
            ("uid"@, JsonView::Int(uid as int)),
        ],
    )
}

/// The digest of what a resource carries besides its content.
pub fn metadata_digest(mode: u32, uid: u32, gid: u32, attributes: &Vec<ExtendedAttribute>) -> (r: String)
    ensures
        r@ == canonical_digest("lspctl-resource-metadata-v1"@, metadata_json(mode, uid, gid, attributes@)),
{
    let mut o: Vec<(String, Json)> = Vec::new();
    let mut i: usize = 0;
    assert(attributes@.take(0) =~= Seq::<ExtendedAttribute>::empty());
    assert(object_view(o@) =~= Seq::<(Seq<char>, JsonView)>::empty());
    while i < attributes.len()
        invariant
            i <= attributes@.len(),
            object_view(o@) == attributes_json(attributes@.take(i as int)),
        decreases attributes.len() - i,
    {
        proof {
            assert(attributes@.take(i + 1).drop_last() =~= attributes@.take(i as int));
            assert(attributes@.take(i + 1).last() == attributes@[i as int]);
        }
        set_field(&mut o, attributes[i].name.as_str(), Json::Text(hex_encode(&attributes[i].bytes)));
        i += 1;
    }
    assert(attributes@.take(i as int) =~= attributes@);
    digest_canonical_value(
        "lspctl-resource-metadata-v1",
        &object4(
            "extendedAttributes",
            Json::Object(o),
            "gid",
            Json::Unsigned(gid as u64),
            "mode",
            Json::Unsigned(mode as u64),
            "uid",
            Json::Unsigned(uid as u64),
        ),
    )
}

/// Whether a file takes less room than its length: it has holes. Room is counted
/// in blocks of 512 bytes.
pub fn metadata_is_sparse(length: u64, blocks: u64) -> (r: bool)
    ensures
        r == (length > 0 && blocks * 512 < length),
{
    length > 0 && blocks <= u64::MAX / 512 && blocks * 512 < length
}

} // verus!
